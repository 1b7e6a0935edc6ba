//! What the folder watcher reports of a file-system event.

use vstd::prelude::*;
use vstd::utf8::*;

use crate::text::utf8_to_string;
use crate::watcher::watcher_command::WatcherCommand;

verus! {

/// The paths of an event that are valid UTF-8, decoded, in their order.
pub open spec fn unicode_paths(paths: Seq<Seq<u8>>) -> Seq<Seq<char>>
    decreases paths.len(),
{
    if paths.len() == 0 {
        Seq::empty()
    } else {
        let rest = unicode_paths(paths.drop_last());
        if valid_utf8(paths.last()) {
            rest.push(decode_utf8(paths.last()))
        } else {
            rest
        }
    }
}

/// The command that reports a file-system event whose paths are `paths` (the
/// bytes of each Unix path): the paths that are valid UTF-8, in order, or no
/// command when there is none.
pub fn change_detected_command(paths: &Vec<Vec<u8>>) -> (r: Option<WatcherCommand>)
    ensures
        match r {
            Some(WatcherCommand::ChangeDetected { paths: reported }) =>
                reported@.map_values(|p: String| p@) == unicode_paths(paths@.map_values(|p: Vec<u8>| p@))
                && reported@.len() > 0,
            None => unicode_paths(paths@.map_values(|p: Vec<u8>| p@)).len() == 0,
        },
{
    let ghost raw = paths@.map_values(|p: Vec<u8>| p@);
    let mut reported: Vec<String> = Vec::new();
    let mut i: usize = 0;
    while i < paths.len()
        invariant
            i <= paths@.len(),
            raw == paths@.map_values(|p: Vec<u8>| p@),
            reported@.map_values(|p: String| p@) == unicode_paths(raw.take(i as int)),
        decreases paths@.len() - i,
    {
        let ghost before = reported@;
        proof {
            assert(raw.take(i + 1).drop_last() =~= raw.take(i as int));
        }
        match utf8_to_string(paths[i].as_slice()) {
            Some(s) => {
                reported.push(s);
                assert(reported@.map_values(|p: String| p@) =~= before.map_values(|p: String| p@).push(s@));
            },
            None => {},
        }
        i = i + 1;
    }
    assert(raw.take(paths@.len() as int) =~= raw);
    if reported.len() == 0 {
        None
    } else {
        Some(WatcherCommand::ChangeDetected { paths: reported })
    }
}

/// The reported paths are the paths that are valid UTF-8, decoded, in their
/// order; the others are dropped.
pub proof fn law_reported_paths_are_unicode_paths(paths: Seq<Seq<u8>>)
    ensures
        unicode_paths(paths) == paths.filter(|p: Seq<u8>| valid_utf8(p)).map_values(
            |p: Seq<u8>| decode_utf8(p),
        ),
    decreases paths.len(),
{
    reveal_with_fuel(Seq::filter, 1);
    if paths.len() > 0 {
        law_reported_paths_are_unicode_paths(paths.drop_last());
        let kept = paths.drop_last().filter(|p: Seq<u8>| valid_utf8(p));
        if valid_utf8(paths.last()) {
            assert(kept.push(paths.last()).map_values(|p: Seq<u8>| decode_utf8(p)) =~= kept.map_values(
                |p: Seq<u8>| decode_utf8(p),
            ).push(decode_utf8(paths.last())));
        }
    } else {
        assert(paths.filter(|p: Seq<u8>| valid_utf8(p)).map_values(|p: Seq<u8>| decode_utf8(p))
            =~= Seq::<Seq<char>>::empty());
    }
}

} // verus!

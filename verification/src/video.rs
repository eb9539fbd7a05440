//! The video collector: the `Video` type and the verified decisions of
//! the directory traversal.
//!
//! The embedding program performs the reads — listing a directory,
//! canonicalizing its path, probing for a subtitle sibling — and folds
//! each listing into the traversal state through [`collect_step`], which
//! decides everything else: which directories are queued, that a
//! canonical path already folded in is never entered again (the cycle
//! guard), that an unreadable directory costs nothing already queued or
//! collected, and which files count as videos.

use vstd::prelude::*;
use crate::paths::{ext_spec, file_name_spec};

verus! {

/// A candidate video file.  Immutable once created; the embedding program
/// builds one per qualifying file while walking the tree.
#[derive(Debug)]
pub struct Video {
    subs: bool,
    path: String,
}

impl Video {
    /// The full path this video was found at.
    pub closed spec fn spec_path(&self) -> Seq<char> {
        self.path@
    }

    /// Whether a subtitle sibling already existed when the video was
    /// collected.
    pub closed spec fn spec_has_subs(&self) -> bool {
        self.subs
    }

    /// The video as plain values: its path and its subtitle flag.
    pub open spec fn model(&self) -> (Seq<char>, bool) {
        (self.spec_path(), self.spec_has_subs())
    }

    pub fn new(path: String, subs: bool) -> (r: Video)
        ensures
            r.spec_path() == path@,
            r.spec_has_subs() == subs,
    {
        Video { subs, path }
    }

    /// The display name: the final segment of the path.
    pub fn name(&self) -> (r: String)
        ensures
            r@ == file_name_spec(self.spec_path()),
    {
        String::from_str(crate::paths::file_name(self.path.as_str()))
    }

    /// The full path as text.
    pub fn path(&self) -> (r: &str)
        ensures
            r@ == self.spec_path(),
    {
        self.path.as_str()
    }

    /// Whether a subtitle sibling already existed at collection time.
    pub fn has_subs(&self) -> (r: bool)
        ensures
            r == self.spec_has_subs(),
    {
        self.subs
    }
}

/// One directory entry as the embedding program reports it: its path,
/// whether it is itself a directory, and — for files — whether a
/// subtitle sibling already exists beside it.
pub struct FsEntry {
    pub path: String,
    pub is_dir: bool,
    pub has_sub_sibling: bool,
}

/// The outcome of listing one directory: its entries, or the fact that
/// it could not be read.
pub enum ListOutcome {
    Listed(Vec<FsEntry>),
    Unreadable,
}

/// The entries a listing carries; an unreadable directory carries none.
pub open spec fn listed_entries(o: ListOutcome) -> Seq<FsEntry> {
    match o {
        ListOutcome::Listed(v) => v@,
        ListOutcome::Unreadable => Seq::empty(),
    }
}

/// A listed entry counts as a video when it is a file whose extension is
/// a member of `exts`.
pub open spec fn entry_is_video(e: FsEntry, exts: Seq<Seq<char>>) -> bool {
    !e.is_dir && exts.contains(ext_spec(file_name_spec(e.path@)))
}

/// The paths of the subdirectories among `entries`, in entry order.
pub open spec fn dirs_of(entries: Seq<FsEntry>) -> Seq<Seq<char>>
    decreases entries.len(),
{
    if entries.len() == 0 {
        Seq::empty()
    } else {
        dirs_of(entries.drop_last()) + if entries.last().is_dir {
            seq![entries.last().path@]
        } else {
            Seq::empty()
        }
    }
}

/// The videos among `entries`, in entry order, each with its subtitle
/// flag.
pub open spec fn videos_of(entries: Seq<FsEntry>, exts: Seq<Seq<char>>) -> Seq<(Seq<char>, bool)>
    decreases entries.len(),
{
    if entries.len() == 0 {
        Seq::empty()
    } else {
        videos_of(entries.drop_last(), exts) + if entry_is_video(entries.last(), exts) {
            seq![(entries.last().path@, entries.last().has_sub_sibling)]
        } else {
            Seq::empty()
        }
    }
}

/// The models of a sequence of videos, in order.
pub open spec fn video_models(vs: Seq<Video>) -> Seq<(Seq<char>, bool)> {
    vs.map_values(|v: Video| v.model())
}

proof fn lemma_video_models_push(vs: Seq<Video>, v: Video)
    ensures
        video_models(vs.push(v)) == video_models(vs).push(v.model()),
{
    assert(video_models(vs.push(v)) =~= video_models(vs).push(v.model()));
}

/// Fold the outcome of listing the directory with canonical path `canon`
/// into the traversal state.  The embedding program performs the listing
/// and the sibling probes; everything the traversal decides is decided
/// here:
/// - a canonical path already folded in changes nothing (the cycle
///   guard), and every other one is recorded exactly once;
/// - an unreadable directory costs nothing already queued or collected;
/// - a fresh, listed directory queues exactly its subdirectories and
///   records, in entry order, one video per qualifying file, carrying
///   its subtitle flag.
pub fn collect_step(
    pending: &mut Vec<String>,
    visited: &mut Vec<String>,
    found: &mut Vec<Video>,
    canon: String,
    outcome: ListOutcome,
    extensions: &Vec<String>,
)
    ensures
        old(visited).deep_view().contains(canon@) ==> final(pending)@ == old(pending)@
            && final(visited)@ == old(visited)@
            && final(found)@ == old(found)@,
        !old(visited).deep_view().contains(canon@) ==> final(visited)@ == old(visited)@.push(canon),
        outcome is Unreadable ==> final(pending)@ == old(pending)@
            && final(found)@ == old(found)@,
        !old(visited).deep_view().contains(canon@) && outcome is Listed
            ==> final(pending).deep_view() == old(pending).deep_view()
            + dirs_of(listed_entries(outcome))
            && video_models(final(found)@) == video_models(old(found)@)
            + videos_of(listed_entries(outcome), extensions.deep_view()),
{
    let mut i: usize = 0;
    while i < visited.len()
        invariant
            i <= visited.len(),
            *visited == *old(visited),
            *pending == *old(pending),
            *found == *old(found),
            forall|k: int| 0 <= k < i ==> old(visited).deep_view()[k] != canon@,
        decreases visited.len() - i,
    {
        if crate::text::str_eq(visited[i].as_str(), canon.as_str()) {
            proof {
                assert(old(visited).deep_view()[i as int] == canon@);
            }
            return;
        }
        i += 1;
    }
    proof {
        assert(!old(visited).deep_view().contains(canon@));
    }
    visited.push(canon);
    match &outcome {
        ListOutcome::Unreadable => {},
        ListOutcome::Listed(entries) => {
            let ghost all = listed_entries(outcome);
            proof {
                assert(all == entries@);
                assert(pending.deep_view() =~~= old(pending).deep_view() + dirs_of(all.take(0)));
                assert(video_models(found@) =~= video_models(old(found)@) + videos_of(
                    all.take(0),
                    extensions.deep_view(),
                ));
            }
            let mut j: usize = 0;
            while j < entries.len()
                invariant
                    j <= entries.len(),
                    all == entries@,
                    pending.deep_view() == old(pending).deep_view() + dirs_of(all.take(j as int)),
                    video_models(found@) == video_models(old(found)@) + videos_of(
                        all.take(j as int),
                        extensions.deep_view(),
                    ),
                decreases entries.len() - j,
            {
                let ghost pre_pending = pending.deep_view();
                let ghost pre_models = video_models(found@);
                let e = &entries[j];
                if e.is_dir {
                    pending.push(e.path.clone());
                    proof {
                        assert(pending.deep_view() =~~= pre_pending.push(e.path@));
                    }
                } else if crate::paths::is_video(e.path.as_str(), extensions) {
                    let v = Video::new(e.path.clone(), e.has_sub_sibling);
                    proof {
                        lemma_video_models_push(found@, v);
                    }
                    found.push(v);
                }
                proof {
                    assert(all.take(j + 1).drop_last() =~= all.take(j as int));
                    assert(all.take(j + 1).last() == all[j as int]);
                    assert(pending.deep_view() =~~= old(pending).deep_view() + dirs_of(
                        all.take(j + 1),
                    ));
                    assert(video_models(found@) =~= video_models(old(found)@) + videos_of(
                        all.take(j + 1),
                        extensions.deep_view(),
                    ));
                }
                j += 1;
            }
            proof {
                assert(all.take(all.len() as int) =~= all);
            }
        },
    }
}

} // verus!

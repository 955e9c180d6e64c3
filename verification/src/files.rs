use vstd::prelude::*;
use crate::paths::{
    is_confined, lemma_level_after_concat, lemma_segments_joined, level_after, segments,
    stays_inside,
};
use crate::text::{begins_with, ends_with};

verus! {

/// What the file system reports of the path of a requested file.
#[derive(Debug, PartialEq, Eq)]
pub enum FileProbe {
    /// Nothing exists at the path.
    Missing,
    /// The path leads out of the base directory once links are followed.
    Outside,
    /// Something exists at the path that is no regular file.
    NotRegular,
    /// A regular file exists at the path, and its bytes cannot be read.
    Unreadable,
    /// A regular file exists at the path, with these bytes.
    Regular { contents: Vec<u8> },
}

/// A report of the file system with the file's bytes as a sequence.
pub enum FileProbeView {
    Missing,
    Outside,
    NotRegular,
    Unreadable,
    Regular { contents: Seq<u8> },
}

impl View for FileProbe {
    type V = FileProbeView;

    open spec fn view(&self) -> FileProbeView {
        match self {
            FileProbe::Missing => FileProbeView::Missing,
            FileProbe::Outside => FileProbeView::Outside,
            FileProbe::NotRegular => FileProbeView::NotRegular,
            FileProbe::Unreadable => FileProbeView::Unreadable,
            FileProbe::Regular { contents } => FileProbeView::Regular { contents: contents@ },
        }
    }
}

/// The path at which a requested file is looked for: the base directory and the name, joined
/// as they are.
pub open spec fn candidate_path_of(base_dir: Seq<char>, name: Seq<char>) -> Seq<char> {
    base_dir + name
}

/// The name starts a segment of its own behind the base directory: a slash stands between
/// the two, or the name is empty. The base directory is not empty.
pub open spec fn continues(base_dir: Seq<char>, name: Seq<char>) -> bool {
    base_dir.len() > 0 && (base_dir.last() == '/' || name.len() == 0 || name[0] == '/')
}

/// The path made of the base directory and the name, read as it is written, leads to a place
/// inside the base directory.
pub open spec fn resolves_inside(base_dir: Seq<char>, name: Seq<char>) -> bool {
    continues(base_dir, name) && stays_inside(name)
}

/// Where the path resolves inside the base directory, walking it from the end of the base
/// directory on never leads above the level of the base directory.
pub proof fn resolved_path_stays_below_base(base_dir: Seq<char>, name: Seq<char>)
    requires
        resolves_inside(base_dir, name),
    ensures
        forall|k: int|
            segments(base_dir).len() <= k <= segments(candidate_path_of(base_dir, name)).len()
                ==> level_after(#[trigger] segments(candidate_path_of(base_dir, name)).take(k))
                >= level_after(segments(base_dir)),
{
    let path = candidate_path_of(base_dir, name);
    let slash = seq!['/'];
    let nothing = Seq::<char>::empty();
    let blank = seq![nothing];
    assert(blank.drop_last() =~= Seq::<Seq<char>>::empty());
    assert(level_after(blank) == 0) by {
        reveal_strlit("..");
        assert(level_after(blank.drop_last()) == 0);
        assert(blank.last() == nothing);
    }
    if name.len() == 0 {
        assert(path =~= base_dir);
        assert(segments(path).take(segments(path).len() as int) =~= segments(path));
    } else if base_dir.last() == '/' {
        let dir = base_dir.drop_last();
        assert(base_dir =~= dir + slash + nothing);
        assert(path =~= dir + slash + name);
        lemma_segments_joined(dir, nothing);
        lemma_segments_joined(dir, name);
        lemma_level_after_concat(segments(dir), blank);
        assert forall|k: int|
            segments(base_dir).len() <= k <= segments(path).len() implies level_after(
            #[trigger] segments(path).take(k),
        ) >= level_after(segments(base_dir)) by {
            let j = k - segments(dir).len();
            assert(segments(path).take(k) =~= segments(dir) + segments(name).take(j));
            lemma_level_after_concat(segments(dir), segments(name).take(j));
        }
    } else {
        let rest = name.drop_first();
        assert(name =~= nothing + slash + rest);
        assert(path =~= base_dir + slash + rest);
        lemma_segments_joined(nothing, rest);
        lemma_segments_joined(base_dir, rest);
        assert forall|k: int|
            segments(base_dir).len() <= k <= segments(path).len() implies level_after(
            #[trigger] segments(path).take(k),
        ) >= level_after(segments(base_dir)) by {
            let j = k - segments(base_dir).len();
            assert(segments(path).take(k) =~= segments(base_dir) + segments(rest).take(j));
            lemma_level_after_concat(segments(base_dir), segments(rest).take(j));
            assert(segments(name).take(j + 1) =~= blank + segments(rest).take(j));
            lemma_level_after_concat(blank, segments(rest).take(j));
        }
    }
}

/// Joins the base directory and a name into the path at which the file is looked for.
pub fn candidate_path(base_dir: &str, name: &str) -> (path: String)
    ensures
        path@ == candidate_path_of(base_dir@, name@),
{
    let mut path = base_dir.to_owned();
    path.append(name);
    path
}

/// The path at which a requested file is looked for, or `None` for a name with which the
/// path would not resolve inside the base directory.
pub fn resolve(base_dir: &str, name: &str) -> (path: Option<String>)
    ensures
        match path {
            Some(p) => resolves_inside(base_dir@, name@) && p@ == candidate_path_of(
                base_dir@,
                name@,
            ),
            None => !resolves_inside(base_dir@, name@),
        },
{
    proof {
        reveal_strlit("/");
        let n = base_dir@.len() as int;
        assert("/"@.is_suffix_of(base_dir@) ==> base_dir@.subrange(n - 1, n)[0] == '/');
        assert("/"@.is_prefix_of(name@) ==> name@.subrange(0, 1)[0] == '/');
    }
    let continues = !base_dir.is_empty() && (name.is_empty() || ends_with(base_dir, "/")
        || begins_with(name, "/"));
    if continues && is_confined(name) {
        Some(candidate_path(base_dir, name))
    } else {
        None
    }
}

} // verus!

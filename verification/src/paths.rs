use vstd::prelude::*;

verus! {

/// The segments of a name: what stands between its slashes, before the first and after the
/// last.
pub open spec fn segments(name: Seq<char>) -> Seq<Seq<char>>
    decreases name.len(),
{
    if name.len() == 0 {
        seq![Seq::empty()]
    } else {
        let before = segments(name.drop_last());
        if name.last() == '/' {
            before.push(Seq::empty())
        } else {
            before.drop_last().push(before.last().push(name.last()))
        }
    }
}

/// Where a segment leads: one level up for `..`, nowhere for an empty segment and for `.`,
/// one level down for any other.
pub open spec fn climb_of(segment: Seq<char>) -> int {
    if segment == ".."@ {
        -1
    } else if segment.len() == 0 || segment == "."@ {
        0
    } else {
        1
    }
}

/// The level reached by walking `path` segment by segment from level 0.
pub open spec fn level_after(path: Seq<Seq<char>>) -> int
    decreases path.len(),
{
    if path.len() == 0 {
        0
    } else {
        level_after(path.drop_last()) + climb_of(path.last())
    }
}

/// Walking the segments of `name` never leads above the directory in which the walk starts.
pub open spec fn stays_inside(name: Seq<char>) -> bool {
    forall|k: int|
        0 <= k <= segments(name).len() ==> level_after(#[trigger] segments(name).take(k)) >= 0
}

/// A name has at least one segment.
pub proof fn lemma_segments_nonempty(name: Seq<char>)
    ensures
        segments(name).len() >= 1,
    decreases name.len(),
{
    if name.len() > 0 {
        lemma_segments_nonempty(name.drop_last());
    }
}

/// A name without a slash is its own single segment.
pub proof fn lemma_segments_plain(name: Seq<char>)
    requires
        !name.contains('/'),
    ensures
        segments(name) == seq![name],
    decreases name.len(),
{
    if name.len() == 0 {
        assert(name =~= Seq::<char>::empty());
    } else {
        let front = name.drop_last();
        assert forall|i: int| 0 <= i < front.len() implies front[i] != '/' by {
            assert(front[i] == name[i]);
            assert(name.contains(name[i]));
        }
        assert(!front.contains('/'));
        lemma_segments_plain(front);
        assert(name.contains(name.last()));
        assert(front.push(name.last()) =~= name);
        assert(seq![front].drop_last().push(seq![front].last().push(name.last())) =~= seq![name]);
    }
}

/// The segments of two names joined by a slash are the segments of the first, followed by
/// the segments of the second.
pub proof fn lemma_segments_joined(head: Seq<char>, tail: Seq<char>)
    ensures
        segments(head + seq!['/'] + tail) == segments(head) + segments(tail),
    decreases tail.len(),
{
    let name = head + seq!['/'] + tail;
    lemma_segments_nonempty(head);
    if tail.len() == 0 {
        assert(name.drop_last() =~= head);
        assert(segments(head).push(Seq::empty()) =~= segments(head) + segments(tail));
    } else {
        let shorter = tail.drop_last();
        lemma_segments_joined(head, shorter);
        lemma_segments_nonempty(shorter);
        assert(name.drop_last() =~= head + seq!['/'] + shorter);
        assert(name.last() == tail.last());
        let before = segments(head) + segments(shorter);
        if tail.last() == '/' {
            assert(before.push(Seq::empty()) =~= segments(head) + segments(shorter).push(
                Seq::empty(),
            ));
        } else {
            assert(before.drop_last() =~= segments(head) + segments(shorter).drop_last());
            assert(before.last() == segments(shorter).last());
            assert(before.drop_last().push(before.last().push(tail.last())) =~= segments(head)
                + segments(shorter).drop_last().push(segments(shorter).last().push(tail.last())));
        }
    }
}

/// The level after a walk in two parts is the sum of the levels of the parts.
pub proof fn lemma_level_after_concat(first: Seq<Seq<char>>, second: Seq<Seq<char>>)
    ensures
        level_after(first + second) == level_after(first) + level_after(second),
    decreases second.len(),
{
    if second.len() == 0 {
        assert(first + second =~= first);
    } else {
        lemma_level_after_concat(first, second.drop_last());
        assert((first + second).drop_last() =~= first + second.drop_last());
        assert((first + second).last() == second.last());
    }
}

/// A name that begins with the parent directory does not stay inside, whatever follows.
pub proof fn parent_first_leads_outside(tail: Seq<char>)
    ensures
        !stays_inside(".."@),
        !stays_inside(".."@ + seq!['/'] + tail),
{
    reveal_strlit("..");
    let up = ".."@;
    assert(!up.contains('/'));
    lemma_segments_plain(up);
    lemma_segments_joined(up, tail);
    assert(seq![up].drop_last() =~= Seq::<Seq<char>>::empty());
    assert(level_after(seq![up]) == -1) by {
        assert(level_after(seq![up].drop_last()) == 0);
    }
    assert(segments(up).take(1) =~= seq![up]);
    assert((segments(up) + segments(tail)).take(1) =~= seq![up]);
}

/// A name without a slash stays inside, unless it is the parent directory itself.
pub proof fn plain_name_stays_inside(name: Seq<char>)
    requires
        !name.contains('/'),
        name != ".."@,
    ensures
        stays_inside(name),
{
    lemma_segments_plain(name);
    let path = seq![name];
    assert forall|k: int| 0 <= k <= path.len() implies level_after(#[trigger] path.take(k))
        >= 0 by {
        if k == 0 {
            assert(path.take(0) =~= Seq::<Seq<char>>::empty());
        } else {
            assert(path.take(1) =~= path);
            assert(path.drop_last() =~= Seq::<Seq<char>>::empty());
            assert(level_after(path.drop_last()) == 0);
        }
    }
}

/// The kinds of segment that `climb_of` tells apart.
#[derive(Clone, Copy)]
enum Kind {
    Empty,
    Here,
    Up,
    Down,
}

spec fn kind_of(segment: Seq<char>) -> Kind {
    if segment.len() == 0 {
        Kind::Empty
    } else if segment == "."@ {
        Kind::Here
    } else if segment == ".."@ {
        Kind::Up
    } else {
        Kind::Down
    }
}

/// The kind of a segment with one more character.
fn extend(kind: Kind, c: char, Ghost(segment): Ghost<Seq<char>>) -> (next: Kind)
    requires
        kind == kind_of(segment),
    ensures
        next == kind_of(segment.push(c)),
{
    proof {
        reveal_strlit(".");
        reveal_strlit("..");
        assert(segment.push(c).last() == c);
        if segment == "."@ {
            assert(segment.push('.') =~= ".."@);
        }
        if segment.len() == 0 {
            assert(segment.push('.') =~= "."@);
        }
        if segment.push(c) == ".."@ {
            assert(segment =~= "."@) by {
                assert(segment.push(c)[0] == segment[0]);
            }
        }
    }
    if c == '.' {
        match kind {
            Kind::Empty => Kind::Here,
            Kind::Here => Kind::Up,
            _ => Kind::Down,
        }
    } else {
        Kind::Down
    }
}

/// The level after one more segment, or `None` where that segment leads above level 0.
fn descend(level: usize, kind: Kind, Ghost(segment): Ghost<Seq<char>>) -> (next: Option<usize>)
    requires
        kind == kind_of(segment),
        level < usize::MAX,
    ensures
        match next {
            Some(l) => l == level + climb_of(segment),
            None => level + climb_of(segment) < 0,
        },
{
    proof {
        reveal_strlit(".");
        reveal_strlit("..");
    }
    match kind {
        Kind::Empty => Some(level),
        Kind::Here => Some(level),
        Kind::Up => if level == 0 {
            None
        } else {
            Some(level - 1)
        },
        Kind::Down => Some(level + 1),
    }
}

/// Tests whether walking the segments of `name` stays inside the directory in which the
/// walk starts.
pub fn is_confined(name: &str) -> (inside: bool)
    ensures
        inside == stays_inside(name@),
{
    // The number of characters bounds the level, which is counted in `usize`.
    let n = name.unicode_len();
    let mut level: usize = 0;
    let mut kind = Kind::Empty;
    let mut inside: bool = true;
    let ghost mut done: Seq<Seq<char>> = Seq::empty();
    let ghost mut current: Seq<char> = Seq::empty();
    let ghost mut low: int = 0;
    proof {
        assert(name@.take(0) =~= Seq::<char>::empty());
        assert(done.push(current) =~= seq![Seq::<char>::empty()]);
        assert(done.take(0) =~= done);
    }
    for c in it: name.chars()
        invariant
            it.seq() == name@,
            n == name@.len(),
            segments(name@.take(it.index())) == done.push(current),
            kind == kind_of(current),
            done.len() <= it.index(),
            inside ==> level == level_after(done) && level <= done.len(),
            inside ==> forall|k: int|
                0 <= k <= done.len() ==> level_after(#[trigger] done.take(k)) >= 0,
            !inside ==> 0 <= low <= done.len() && level_after(done.take(low)) < 0,
    {
        proof {
            assert(name@.take(it.index() + 1).drop_last() =~= name@.take(it.index()));
            assert(name@.take(it.index() + 1).last() == c);
            assert(done.push(current).drop_last() =~= done);
        }
        if c == '/' {
            let ghost ended = done.push(current);
            proof {
                assert(ended.drop_last() =~= done);
                assert(ended.take(ended.len() as int) =~= ended);
                assert forall|k: int| 0 <= k <= done.len() implies ended.take(k) =~= done.take(
                    k,
                ) by {}
            }
            if inside {
                match descend(level, kind, Ghost(current)) {
                    Some(next) => {
                        level = next;
                    },
                    None => {
                        inside = false;
                        proof {
                            low = ended.len() as int;
                        }
                    },
                }
            }
            kind = Kind::Empty;
            proof {
                done = ended;
                current = Seq::empty();
            }
        } else {
            kind = extend(kind, c, Ghost(current));
            proof {
                current = current.push(c);
            }
        }
    }
    let ghost all = done.push(current);
    proof {
        assert(name@.take(name@.len() as int) =~= name@);
        assert(all.drop_last() =~= done);
        assert(all.take(all.len() as int) =~= all);
        assert forall|k: int| 0 <= k <= done.len() implies all.take(k) =~= done.take(k) by {}
    }
    if inside {
        proof {
            reveal_strlit(".");
            reveal_strlit("..");
        }
        match kind {
            Kind::Up => {
                assert(level == 0 ==> level_after(segments(name@).take(all.len() as int)) < 0);
                level > 0
            },
            _ => true,
        }
    } else {
        assert(level_after(segments(name@).take(low)) < 0);
        false
    }
}

} // verus!

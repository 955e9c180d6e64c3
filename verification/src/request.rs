use vstd::prelude::*;
use crate::text::{begins_with, part};

verus! {

/// The texts of a sequence of strings.
pub open spec fn texts_of(strings: Seq<String>) -> Seq<Seq<char>> {
    Seq::new(strings.len(), |i: int| strings[i]@)
}

/// `end` is where a request ends in a stream of lines: at the first empty line, or at the
/// end of the stream where it has none.
pub open spec fn ends_at(stream: Seq<Seq<char>>, end: int) -> bool {
    &&& 0 <= end <= stream.len()
    &&& end < stream.len() ==> stream[end].len() == 0
    &&& forall|j: int| 0 <= j < end ==> (#[trigger] stream[j]).len() > 0
}

/// The lines of the request that a stream of lines begins with: those before its first
/// empty line.
pub open spec fn request_of(stream: Seq<Seq<char>>) -> Seq<Seq<char>> {
    stream.take(choose|end: int| ends_at(stream, end))
}

/// What begins the header line that names the client.
pub open spec fn user_agent_prefix() -> Seq<char> {
    "User-Agent: "@
}

/// Line `i` is the first header line that begins with the user agent prefix. The headers are
/// the lines after the request line.
pub open spec fn is_user_agent_at(lines: Seq<Seq<char>>, i: int) -> bool {
    &&& 1 <= i < lines.len()
    &&& user_agent_prefix().is_prefix_of(lines[i])
    &&& forall|j: int| 1 <= j < i ==> !user_agent_prefix().is_prefix_of(#[trigger] lines[j])
}

/// What the request says of its client: the rest of the first header line that begins with
/// the user agent prefix, or nothing where no header line does.
pub open spec fn user_agent_of(lines: Seq<Seq<char>>) -> Seq<char> {
    if exists|i: int| is_user_agent_at(lines, i) {
        lines[choose|i: int| is_user_agent_at(lines, i)].skip(user_agent_prefix().len() as int)
    } else {
        Seq::empty()
    }
}

/// A request ends at one place only.
pub proof fn lemma_ends_at_unique(stream: Seq<Seq<char>>, a: int, b: int)
    requires
        ends_at(stream, a),
        ends_at(stream, b),
    ensures
        a == b,
{
    if a < b {
        assert(stream[a].len() > 0);
    }
    if b < a {
        assert(stream[b].len() > 0);
    }
}

/// The lines of one request in the order in which they were read: the request line first,
/// then the headers. None of them is empty: the first empty line ends the request and is
/// not kept.
pub struct RequestLines {
    lines: Vec<String>,
    complete: bool,
}

impl View for RequestLines {
    type V = Seq<Seq<char>>;

    closed spec fn view(&self) -> Seq<Seq<char>> {
        texts_of(self.lines@)
    }
}

impl RequestLines {
    #[verifier::type_invariant]
    spec fn no_empty_line(&self) -> bool {
        forall|i: int| 0 <= i < self.lines@.len() ==> (#[trigger] self.lines@[i])@.len() > 0
    }

    /// The empty line that ends the request has been read.
    pub closed spec fn is_complete(&self) -> bool {
        self.complete
    }

    /// A request of which nothing has been read yet.
    pub fn new() -> (request: RequestLines)
        ensures
            request@ == Seq::<Seq<char>>::empty(),
            !request.is_complete(),
    {
        let request = RequestLines { lines: Vec::new(), complete: false };
        assert(request@ =~= Seq::<Seq<char>>::empty());
        request
    }

    /// The request after the next line was read from the connection. An empty line completes
    /// the request and is not kept; neither is a line that comes after that.
    pub fn accept(self, line: String) -> (next: RequestLines)
        ensures
            next.is_complete() == (self.is_complete() || line@.len() == 0),
            next@ == if next.is_complete() {
                self@
            } else {
                self@.push(line@)
            },
    {
        proof {
            use_type_invariant(&self);
        }
        if self.complete {
            return self;
        }
        let mut lines = self.lines;
        if line.as_str().is_empty() {
            return RequestLines { lines, complete: true };
        }
        let ghost before = lines@;
        lines.push(line);
        assert(texts_of(lines@) =~= texts_of(before).push(line@));
        RequestLines { lines, complete: false }
    }

    /// The request that a stream of lines begins with.
    pub fn from_lines(stream: Vec<String>) -> (request: RequestLines)
        ensures
            request@ == request_of(texts_of(stream@)),
            request.is_complete() == (request@.len() < stream@.len()),
    {
        let mut lines = stream;
        let ghost all = texts_of(stream@);
        let mut end: usize = 0;
        while end < lines.len() && !lines[end].as_str().is_empty()
            invariant
                lines@ == stream@,
                all == texts_of(stream@),
                0 <= end <= lines.len(),
                forall|j: int| 0 <= j < end ==> (#[trigger] all[j]).len() > 0,
            decreases lines.len() - end,
        {
            end = end + 1;
        }
        proof {
            assert(ends_at(all, end as int));
            lemma_ends_at_unique(all, end as int, choose|e: int| ends_at(all, e));
        }
        let complete = end < lines.len();
        lines.truncate(end);
        assert forall|i: int| 0 <= i < lines@.len() implies (#[trigger] lines@[i])@.len() > 0 by {
            assert(all[i].len() > 0);
        }
        let request = RequestLines { lines, complete };
        assert(request@ =~= all.take(end as int));
        request
    }

    /// Whether the empty line that ends the request has been read.
    pub fn complete(&self) -> (complete: bool)
        ensures
            complete == self.is_complete(),
    {
        self.complete
    }

    /// The number of lines.
    pub fn len(&self) -> (n: usize)
        ensures
            n == self@.len(),
    {
        self.lines.len()
    }

    /// Line `i`, where there is one. It is not empty.
    pub fn line(&self, i: usize) -> (line: Option<&str>)
        ensures
            match line {
                Some(text) => i < self@.len() && text@ == self@[i as int] && text@.len() > 0,
                None => i >= self@.len(),
            },
    {
        proof {
            use_type_invariant(self);
        }
        if i < self.lines.len() {
            Some(self.lines[i].as_str())
        } else {
            None
        }
    }

    /// The request line: the first line, where there is one.
    pub fn request_line(&self) -> (first: Option<&str>)
        ensures
            match first {
                Some(text) => self@.len() > 0 && text@ == self@[0],
                None => self@.len() == 0,
            },
    {
        self.line(0)
    }

    /// What the request says of its client.
    pub fn user_agent(&self) -> (value: String)
        ensures
            value@ == user_agent_of(self@),
    {
        let mut i: usize = 1;
        while i < self.lines.len()
            invariant
                1 <= i,
                forall|j: int|
                    1 <= j < i && j < self@.len() ==> !user_agent_prefix().is_prefix_of(
                        #[trigger] self@[j],
                    ),
            decreases self.lines.len() - i,
        {
            let line = self.lines[i].as_str();
            if begins_with(line, "User-Agent: ") {
                proof {
                    reveal_strlit("User-Agent: ");
                    assert(is_user_agent_at(self@, i as int));
                    let found = choose|k: int| is_user_agent_at(self@, k);
                    assert(found == i) by {
                        if found < i {
                            assert(!user_agent_prefix().is_prefix_of(self@[found]));
                        }
                        if i < found {
                            assert(!user_agent_prefix().is_prefix_of(self@[i as int]));
                        }
                    }
                    assert(line@.skip(12) =~= line@.subrange(12, line@.len() as int));
                }
                return part(line, 12, line.unicode_len());
            }
            i = i + 1;
        }
        proof {
            assert forall|k: int| !is_user_agent_at(self@, k) by {
                if is_user_agent_at(self@, k) {
                    assert(user_agent_prefix().is_prefix_of(self@[k]));
                }
            }
        }
        String::new()
    }
}

} // verus!

//! The event stream in which the signaling server answers a registration: first the connection
//! code, then the description of the peer.

use crate::description::is_solid;
use crate::text::{
    is_white_space, law_lines, law_lines_concat, law_trimmed, law_trimmed_fixed,
    law_without_prefixes, lemma_single_line, lines, lines_of, starts_with, texts,
    trim_after_prefixes, trimmed, without_prefixes, without_return,
};
use vstd::prelude::*;
use vstd::utf8::{decode_utf8, valid_utf8};

verus! {

/// The text that `bytes` encode in UTF-8, with replacement characters for what is malformed.
pub uninterp spec fn lossy_text(bytes: Seq<u8>) -> Seq<char>;

/// `String::from_utf8_lossy`: names the text, and says that it is what the bytes encode where
/// they are valid UTF-8. How much one replacement character stands for is left unsaid.
#[verifier::external_body]
fn text_lossy(bytes: &[u8]) -> (r: String)
    ensures
        r@ == lossy_text(bytes@),
        valid_utf8(bytes@) ==> r@ == decode_utf8(bytes@),
{
    String::from_utf8_lossy(bytes).into_owned()
}

/// The value of a line of the stream, where it is a line with data.
pub open spec fn data_value(line: Seq<char>) -> Option<Seq<char>> {
    if "data:"@.is_prefix_of(line) {
        Some(trimmed(without_prefixes(line, "data:"@)))
    } else {
        None
    }
}

/// The values of the lines with data in `text`.
pub open spec fn values_of(text: Seq<char>) -> Seq<Seq<char>> {
    lines(text).filter_map(|line: Seq<char>| data_value(line))
}

/// The values of the lines with data in `text`, in their order.
pub fn data_values(text: &str) -> (r: Vec<String>)
    ensures
        texts(r@) == values_of(text@),
        r@.len() == values_of(text@).len(),
        forall|i: int| 0 <= i < r@.len() ==> (#[trigger] r@[i])@ == values_of(text@)[i],
{
    let all = lines_of(text);
    let ghost value = |line: Seq<char>| data_value(line);
    let mut r: Vec<String> = Vec::new();
    let mut i: usize = 0;
    assert(texts(all@).take(0).filter_map(value) == texts(r@));
    while i < all.len()
        invariant
            i <= all.len(),
            value == (|line: Seq<char>| data_value(line)),
            texts(r@) == texts(all@).take(i as int).filter_map(value),
        decreases all.len() - i,
    {
        let ghost before = texts(r@);
        proof {
            assert(texts(all@).take(i + 1).drop_last() == texts(all@).take(i as int));
            assert(texts(all@).take(i + 1).last() == all@[i as int]@);
        }
        if starts_with(all[i].as_str(), "data:") {
            let v = trim_after_prefixes(all[i].as_str(), "data:");
            r.push(v);
            assert(texts(r@) == before + seq![v@]);
        }
        i = i + 1;
    }
    assert(texts(all@).take(all@.len() as int) == texts(all@));
    assert forall|i: int| 0 <= i < r@.len() implies (#[trigger] r@[i])@ == values_of(text@)[i] by {
        assert(texts(r@)[i] == r@[i]@);
    }
    r
}

/// What a peer that registered has to do with a value from the stream.
#[derive(Debug)]
pub enum Notice {
    /// Hand the connection code to whoever waits for it.
    Code(String),
    /// Take the answer of the other peer, which is compressed, as the remote description.
    Answer(String),
}

/// What a [`Notice`] holds.
pub enum NoticeView {
    Code(Seq<char>),
    Answer(Seq<char>),
}

impl View for Notice {
    type V = NoticeView;

    open spec fn view(&self) -> NoticeView {
        match self {
            Notice::Code(value) => NoticeView::Code(value@),
            Notice::Answer(value) => NoticeView::Answer(value@),
        }
    }
}

/// What the elements of `v` hold.
pub open spec fn views(v: Seq<Notice>) -> Seq<NoticeView> {
    Seq::new(v.len(), |i: int| v[i]@)
}

/// The smaller one of two numbers.
pub open spec fn min(a: int, b: int) -> int {
    if a < b {
        a
    } else {
        b
    }
}

/// What `values` mean where `seen` values came before them: the first value of the stream is the
/// connection code, the second one the answer, and the others mean nothing.
pub open spec fn notices(seen: int, values: Seq<Seq<char>>) -> Seq<NoticeView> {
    Seq::new(
        min(2 - seen, values.len() as int) as nat,
        |i: int|
            if seen + i == 0 {
                NoticeView::Code(values[i])
            } else {
                NoticeView::Answer(values[i])
            },
    )
}

/// How many values count as seen after `values`.
pub open spec fn seen_after(seen: int, values: Seq<Seq<char>>) -> int {
    min(2, seen + values.len())
}

/// How far the stream was read.
#[derive(Clone, Copy, Debug, PartialEq, Eq, Structural)]
pub enum CodeStream {
    AwaitingCode,
    AwaitingAnswer,
    Finished,
}

impl CodeStream {
    /// How many of the values that matter were seen.
    pub open spec fn seen(self) -> int {
        match self {
            CodeStream::AwaitingCode => 0,
            CodeStream::AwaitingAnswer => 1,
            CodeStream::Finished => 2,
        }
    }

    /// A stream of which nothing was read.
    pub fn new() -> (r: CodeStream)
        ensures
            r.seen() == 0,
    {
        CodeStream::AwaitingCode
    }

    /// Whether the rest of the stream does not matter.
    pub fn is_finished(&self) -> (r: bool)
        ensures
            r == (self.seen() == 2),
    {
        match self {
            CodeStream::Finished => true,
            _ => false,
        }
    }

    /// Takes one chunk of the stream. Every chunk is read by itself.
    pub fn on_chunk(&mut self, chunk: &[u8]) -> (r: Vec<Notice>)
        ensures
            views(r@) == notices(old(self).seen(), values_of(lossy_text(chunk@))),
            valid_utf8(chunk@) ==> views(r@) == notices(
                old(self).seen(),
                values_of(decode_utf8(chunk@)),
            ),
            final(self).seen() == seen_after(old(self).seen(), values_of(lossy_text(chunk@))),
            valid_utf8(chunk@) ==> lossy_text(chunk@) == decode_utf8(chunk@),
            match *old(self) {
                CodeStream::AwaitingCode => if values_of(lossy_text(chunk@)).len() == 0 {
                    r@.len() == 0 && *final(self) == CodeStream::AwaitingCode
                } else if values_of(lossy_text(chunk@)).len() == 1 {
                    r@.len() == 1 && *final(self) == CodeStream::AwaitingAnswer
                } else {
                    r@.len() == 2 && *final(self) == CodeStream::Finished
                },
                CodeStream::AwaitingAnswer => if values_of(lossy_text(chunk@)).len() == 0 {
                    r@.len() == 0 && *final(self) == CodeStream::AwaitingAnswer
                } else {
                    r@.len() == 1 && *final(self) == CodeStream::Finished
                },
                CodeStream::Finished => r@.len() == 0 && *final(self) == CodeStream::Finished,
            },
            *old(self) == CodeStream::AwaitingCode && r@.len() > 0 ==> (
            r@[0] matches Notice::Code(code) && code@ == values_of(lossy_text(chunk@))[0]),
            *old(self) == CodeStream::AwaitingCode && r@.len() > 1 ==> (
            r@[1] matches Notice::Answer(answer) && answer@ == values_of(lossy_text(chunk@))[1]),
            *old(self) == CodeStream::AwaitingAnswer && r@.len() > 0 ==> (
            r@[0] matches Notice::Answer(answer) && answer@ == values_of(lossy_text(chunk@))[0]),
    {
        let text = text_lossy(chunk);
        self.on_text(text.as_str())
    }

    /// Takes the text of one chunk of the stream.
    pub fn on_text(&mut self, text: &str) -> (r: Vec<Notice>)
        ensures
            views(r@) == notices(old(self).seen(), values_of(text@)),
            final(self).seen() == seen_after(old(self).seen(), values_of(text@)),
            match *old(self) {
                CodeStream::AwaitingCode => if values_of(text@).len() == 0 {
                    r@.len() == 0 && *final(self) == CodeStream::AwaitingCode
                } else if values_of(text@).len() == 1 {
                    r@.len() == 1 && *final(self) == CodeStream::AwaitingAnswer
                } else {
                    r@.len() == 2 && *final(self) == CodeStream::Finished
                },
                CodeStream::AwaitingAnswer => if values_of(text@).len() == 0 {
                    r@.len() == 0 && *final(self) == CodeStream::AwaitingAnswer
                } else {
                    r@.len() == 1 && *final(self) == CodeStream::Finished
                },
                CodeStream::Finished => r@.len() == 0 && *final(self) == CodeStream::Finished,
            },
            *old(self) == CodeStream::AwaitingCode && r@.len() > 0 ==> (
            r@[0] matches Notice::Code(code) && code@ == values_of(text@)[0]),
            *old(self) == CodeStream::AwaitingCode && r@.len() > 1 ==> (
            r@[1] matches Notice::Answer(answer) && answer@ == values_of(text@)[1]),
            *old(self) == CodeStream::AwaitingAnswer && r@.len() > 0 ==> (
            r@[0] matches Notice::Answer(answer) && answer@ == values_of(text@)[0]),
    {
        let values = data_values(text);
        let mut r: Vec<Notice> = Vec::new();
        let ghost all = values_of(text@);
        let ghost seen = self.seen();
        let mut i: usize = 0;
        while i < values.len()
            invariant
                i <= values.len(),
                texts(values@) == all,
                0 <= seen <= 2,
                self.seen() == seen_after(seen, all.take(i as int)),
                views(r@) == notices(seen, all.take(i as int)),
            decreases values.len() - i,
        {
            let ghost before = views(r@);
            assert(all[i as int] == values@[i as int]@);
            match *self {
                CodeStream::AwaitingCode => {
                    *self = CodeStream::AwaitingAnswer;
                    r.push(Notice::Code(values[i].clone()));
                    assert(views(r@) == before.push(NoticeView::Code(all[i as int])));
                },
                CodeStream::AwaitingAnswer => {
                    *self = CodeStream::Finished;
                    r.push(Notice::Answer(values[i].clone()));
                    assert(views(r@) == before.push(NoticeView::Answer(all[i as int])));
                },
                CodeStream::Finished => {},
            }
            assert(views(r@) == notices(seen, all.take(i + 1)));
            i = i + 1;
        }
        assert(all.take(values@.len() as int) == all);
        assert(views(r@).len() == r@.len());
        assert(r@.len() > 0 ==> views(r@)[0] == r@[0]@);
        assert(r@.len() > 1 ==> views(r@)[1] == r@[1]@);
        r
    }
}

/// `filter_map` goes through a sequence part by part.
proof fn lemma_filter_map_concat(
    a: Seq<Seq<char>>,
    b: Seq<Seq<char>>,
    f: spec_fn(Seq<char>) -> Option<Seq<char>>,
)
    ensures
        (a + b).filter_map(f) == a.filter_map(f) + b.filter_map(f),
    decreases b.len(),
{
    if b.len() == 0 {
        assert(a + b == a);
        assert(a.filter_map(f) + b.filter_map(f) == a.filter_map(f));
    } else {
        let rest = b.drop_last();
        assert((a + b).drop_last() == a + rest);
        assert((a + b).last() == b.last());
        lemma_filter_map_concat(a, rest, f);
        assert((a + b).filter_map(f) == a.filter_map(f) + b.filter_map(f));
    }
}

/// Where a chunk ends with a line feed, it does not matter that the stream was cut there.
pub proof fn law_values_concat(a: Seq<char>, b: Seq<char>)
    requires
        a.len() > 0 ==> a.last() == '\n',
    ensures
        values_of(a + b) == values_of(a) + values_of(b),
{
    law_lines_concat(a, b);
    lemma_filter_map_concat(lines(a), lines(b), |line: Seq<char>| data_value(line));
}

/// What the values of `chunks` mean where every chunk is read by itself, one after the other.
pub open spec fn run(seen: int, chunks: Seq<Seq<char>>) -> Seq<NoticeView>
    decreases chunks.len(),
{
    if chunks.len() == 0 {
        seq![]
    } else {
        let values = values_of(chunks[0]);
        notices(seen, values) + run(seen_after(seen, values), chunks.skip(1))
    }
}

/// The values of all of `chunks`.
pub open spec fn all_values(chunks: Seq<Seq<char>>) -> Seq<Seq<char>>
    decreases chunks.len(),
{
    if chunks.len() == 0 {
        seq![]
    } else {
        values_of(chunks[0]) + all_values(chunks.skip(1))
    }
}

/// The text that comes in `chunks`.
pub open spec fn whole(chunks: Seq<Seq<char>>) -> Seq<char>
    decreases chunks.len(),
{
    if chunks.len() == 0 {
        seq![]
    } else {
        chunks[0] + whole(chunks.skip(1))
    }
}

/// Whether no chunk but the last ends within a line.
pub open spec fn cut_at_line_feeds(chunks: Seq<Seq<char>>) -> bool {
    forall|i: int|
        0 <= i < chunks.len() - 1 ==> (#[trigger] chunks[i]).len() == 0 || chunks[i].last() == '\n'
}

/// However a text is cut into chunks after line feeds, its values are the same.
pub proof fn law_cut_at_line_feeds(chunks: Seq<Seq<char>>)
    requires
        cut_at_line_feeds(chunks),
    ensures
        all_values(chunks) == values_of(whole(chunks)),
    decreases chunks.len(),
{
    if chunks.len() == 1 {
        assert(chunks.skip(1).len() == 0);
        assert(whole(chunks.skip(1)) == Seq::<char>::empty());
        assert(all_values(chunks.skip(1)) == Seq::<Seq<char>>::empty());
        assert(whole(chunks) == chunks[0]);
        assert(all_values(chunks) == values_of(chunks[0]));
    } else if chunks.len() > 1 {
        let rest = chunks.skip(1);
        assert forall|i: int| 0 <= i < rest.len() - 1 implies (#[trigger] rest[i]).len() == 0
            || rest[i].last() == '\n' by {
            assert(rest[i] == chunks[i + 1]);
        }
        law_cut_at_line_feeds(rest);
        assert(chunks[0].len() == 0 || chunks[0].last() == '\n');
        law_values_concat(chunks[0], whole(rest));
    } else {
        assert(all_values(chunks) == values_of(whole(chunks)));
    }
}

/// However the values are spread over the chunks of a stream, the first value of them all is
/// handed on as the connection code and the second one as the answer, and nothing else is: so
/// there is at most one of each, the code first.
pub proof fn law_one_code_one_answer(seen: int, chunks: Seq<Seq<char>>)
    requires
        0 <= seen <= 2,
    ensures
        run(seen, chunks) == notices(seen, all_values(chunks)),
    decreases chunks.len(),
{
    if chunks.len() > 0 {
        let values = values_of(chunks[0]);
        let rest = all_values(chunks.skip(1));
        law_one_code_one_answer(seen_after(seen, values), chunks.skip(1));
        assert(notices(seen, values) + notices(seen_after(seen, values), rest) == notices(
            seen,
            values + rest,
        ));
    } else {
        assert(run(seen, chunks) == notices(seen, all_values(chunks)));
    }
}

/// The text of an event in a `text/event-stream`: a line with its name, a line with its data, and
/// an empty line.
pub open spec fn event_text(name: Seq<char>, data: Seq<char>) -> Seq<char> {
    ("event: "@ + name).push('\n') + (("data: "@ + data).push('\n') + seq!['\n'])
}

/// Of an event whose data holds no white space, the stream gives the data and nothing else. The
/// codes and the descriptions that the peers exchange are such data.
pub proof fn law_event_data_arrives(name: Seq<char>, data: Seq<char>)
    requires
        !name.contains('\n'),
        is_solid(data),
    ensures
        values_of(event_text(name, data)) == seq![data],
{
    reveal_strlit("event: ");
    reveal_strlit("data: ");
    reveal_strlit("data:");
    let value = |line: Seq<char>| data_value(line);
    let first = "event: "@ + name;
    let second = "data: "@ + data;
    let third = Seq::<char>::empty();
    assert(!first.contains('\n')) by {
        assert forall|i: int| 0 <= i < first.len() implies first[i] != '\n' by {
            if i >= 7 {
                assert(name.contains(name[i - 7]));
            }
        }
    }
    assert(!second.contains('\n')) by {
        assert forall|i: int| 0 <= i < second.len() implies second[i] != '\n' by {
            if i >= 6 {
                assert(second[i] == data[i - 6]);
            }
        }
    }
    assert(third.push('\n') == seq!['\n']);
    lemma_single_line(first);
    lemma_single_line(second);
    lemma_single_line(third);
    law_values_concat(first.push('\n'), second.push('\n') + seq!['\n']);
    law_values_concat(second.push('\n'), seq!['\n']);
    let line = without_return(first);
    assert(values_of(first.push('\n')) == Seq::<Seq<char>>::empty()) by {
        lemma_filter_map_one(line, value);
        assert(line.len() > 0 ==> line[0] == 'e');
        if "data:"@.is_prefix_of(line) {
            assert("data:"@[0] == line[0]);
        }
    }
    assert(values_of(seq!['\n']) == Seq::<Seq<char>>::empty()) by {
        lemma_filter_map_one(third, value);
    }
    assert(second.last() != '\r');
    assert(values_of(second.push('\n')) == seq![data]) by {
        lemma_filter_map_one(second, value);
        let rest = second.skip(5);
        assert("data:"@.is_prefix_of(second));
        assert(rest == seq![' '] + data);
        assert(without_prefixes(second, "data:"@) == rest) by {
            if "data:"@.is_prefix_of(rest) {
                assert("data:"@[0] == rest[0]);
            }
            assert(without_prefixes(rest, "data:"@) == rest);
        }
        assert(rest.skip(1) == data);
        law_trimmed_fixed(data);
        if data.len() == 0 {
            assert(trimmed(rest) == data);
        } else {
            assert(!crate::text::is_white_space(data[0]));
            assert(trimmed(rest) == data);
        }
    }
    assert(Seq::<Seq<char>>::empty() + (seq![data] + Seq::<Seq<char>>::empty()) == seq![data]);
}

/// `filter_map` on a sequence of one element.
proof fn lemma_filter_map_one(line: Seq<char>, f: spec_fn(Seq<char>) -> Option<Seq<char>>)
    ensures
        seq![line].filter_map(f) == match f(line) {
            Some(v) => seq![v],
            None => seq![],
        },
{
    assert(seq![line].drop_last() == Seq::<Seq<char>>::empty());
    assert(seq![line].drop_last().filter_map(f) == Seq::<Seq<char>>::empty());
    match f(line) {
        Some(v) => {
            assert(Seq::<Seq<char>>::empty() + seq![v] == seq![v]);
        },
        None => {},
    }
}

/// A line that does not start with `data:` gives no value, and does not touch those of the lines
/// after it. A second `data:` at the start of a line makes no difference.
pub proof fn law_other_lines_give_nothing(line: Seq<char>, rest: Seq<char>)
    requires
        !line.contains('\n'),
    ensures
        values_of(Seq::empty()) == Seq::<Seq<char>>::empty(),
        !"data:"@.is_prefix_of(line) ==> {
            &&& values_of(line) == Seq::<Seq<char>>::empty()
            &&& values_of(line + seq!['\r', '\n'] + rest) == values_of(rest)
            &&& line.len() == 0 || line.last() != '\r' ==> values_of(line + seq!['\n'] + rest)
                == values_of(rest)
        },
        "data:"@.is_prefix_of(line) ==> values_of("data:"@ + line + seq!['\r', '\n'] + rest)
            == values_of(line + seq!['\r', '\n'] + rest),
{
    let value = |line: Seq<char>| data_value(line);
    let none = Seq::<Seq<char>>::empty();
    reveal_strlit("data:");
    law_lines(line, rest);
    lemma_filter_map_concat(seq![line], lines(rest), value);
    lemma_filter_map_one(line, value);
    assert(none.filter_map(value) == none);
    assert(none + values_of(rest) == values_of(rest));
    if "data:"@.is_prefix_of(line) {
        let more = "data:"@ + line;
        assert(!more.contains('\n')) by {
            assert forall|j: int| 0 <= j < more.len() implies more[j] != '\n' by {
                if j >= 5 {
                    assert(line.contains(line[j - 5]));
                }
            }
        }
        law_lines(more, rest);
        lemma_filter_map_concat(seq![more], lines(rest), value);
        lemma_filter_map_one(more, value);
        law_without_prefixes(line, "data:"@);
        assert("data:"@.is_prefix_of(more));
    } else if line.len() == 0 {
        assert(line == Seq::<char>::empty());
    }
}

/// A line that starts with `data:` gives what follows, all of it, without the white space around
/// it, before the values of the lines after it.
pub proof fn law_data_line_gives_value(
    before: Seq<char>,
    value: Seq<char>,
    after: Seq<char>,
    rest: Seq<char>,
)
    requires
        forall|i: int| 0 <= i < before.len() ==> is_white_space(#[trigger] before[i]),
        forall|i: int| 0 <= i < after.len() ==> is_white_space(#[trigger] after[i]),
        value.len() > 0 ==> !is_white_space(value[0]) && !is_white_space(value.last()),
        !(before + value + after).contains('\n'),
        !"data:"@.is_prefix_of(before + value + after),
    ensures
        ({
            let line = "data:"@ + (before + value + after);
            &&& values_of(line) == seq![value]
            &&& values_of(line + seq!['\r', '\n'] + rest) == seq![value] + values_of(rest)
            &&& line.last() != '\r' ==> values_of(line + seq!['\n'] + rest) == seq![value]
                + values_of(rest)
        }),
{
    let data = before + value + after;
    let line = "data:"@ + data;
    let f = |line: Seq<char>| data_value(line);
    reveal_strlit("data:");
    assert(!line.contains('\n')) by {
        assert forall|j: int| 0 <= j < line.len() implies line[j] != '\n' by {
            if j >= 5 {
                assert(data.contains(data[j - 5]));
            }
        }
    }
    law_lines(line, rest);
    lemma_filter_map_concat(seq![line], lines(rest), f);
    lemma_filter_map_one(line, f);
    law_without_prefixes(data, "data:"@);
    law_trimmed(before, value, after);
    assert("data:"@.is_prefix_of(line));
}

/// The first value of a stream is the code and the second one the answer; how many were seen counts
/// up to two.
pub proof fn law_notices(values: Seq<Seq<char>>)
    ensures
        values.len() == 0 ==> notices(0, values).len() == 0 && notices(1, values).len() == 0,
        values.len() == 1 ==> notices(0, values) == seq![NoticeView::Code(values[0])],
        values.len() > 1 ==> notices(0, values) == seq![
            NoticeView::Code(values[0]),
            NoticeView::Answer(values[1]),
        ],
        values.len() > 0 ==> notices(1, values) == seq![NoticeView::Answer(values[0])],
        notices(2, values).len() == 0,
        CodeStream::AwaitingCode.seen() == 0,
        CodeStream::AwaitingAnswer.seen() == 1,
        CodeStream::Finished.seen() == 2,
{
}

/// A notice holds its value, all of it.
pub proof fn law_notice_views(v: Seq<Notice>)
    ensures
        views(v).len() == v.len(),
        forall|i: int|
            0 <= i < v.len() ==> #[trigger] views(v)[i] == match v[i] {
                Notice::Code(value) => NoticeView::Code(value@),
                Notice::Answer(value) => NoticeView::Answer(value@),
            },
{
}

} // verus!

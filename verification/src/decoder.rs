use crate::error::Error;
use crate::json::{as_str, from_str, json_parsed, json_tree, member, JsonTree};
use crate::pattern::{compile, regex_compiles, regex_replaced, replace_all};
use crate::text::{
    is_blank, lemma_blank_trims_to_nothing, lines, skip_bytes, to_chars, to_text, trim, trimmed,
    utf8_width,
};
use serde_json::Value;
use vstd::prelude::*;
use vstd::slice::slice_subrange;

verus! {

/// The number of bytes that the service's marker takes at the start of a frame.
pub const MARKER_WIDTH: usize = 6;

/// The pattern that matches a run of line feeds.
pub const NEWLINE_RUN: &'static str = "\\n+";

/// The text that takes the place of a run of line feeds.
pub const NEWLINE: &'static str = "\n";

/// The member of a frame's payload that carries a piece of the answer.
pub const COMPLETION: &'static str = "completion";

/// What a parsed payload contributes to the answer: the text of its member
/// `completion` where it is an object that has one; nothing where it has none
/// or is no object; an error where that member is not a string.
pub open spec fn completion(tree: JsonTree) -> Result<Option<Seq<char>>, Error> {
    match tree {
        JsonTree::Object(members) => if members.contains_key(COMPLETION@) {
            match members[COMPLETION@] {
                JsonTree::Text(text) => Ok(Some(text)),
                _ => Err(Error::Decode),
            }
        } else {
            Ok(None)
        },
        _ => Ok(None),
    }
}

/// What a frame contributes to the answer. A blank frame contributes nothing.
/// Any other frame is the marker followed by a payload: what is left once the
/// marker's bytes and the surrounding whitespace are taken away must be JSON,
/// and contributes what `completion` says.
pub open spec fn frame_delta(frame: Seq<char>) -> Result<Option<Seq<char>>, Error> {
    if is_blank(frame) {
        Ok(None)
    } else {
        match skip_bytes(frame, MARKER_WIDTH as nat) {
            None => Err(Error::Decode),
            Some(rest) => match json_parsed(trimmed(rest)) {
                None => Err(Error::Decode),
                Some(tree) => completion(tree),
            },
        }
    }
}

/// The answer that a sequence of frames gives: what the frames contribute,
/// one after the other, or an error as soon as one frame is malformed.
pub open spec fn answer_of_frames(frames: Seq<Seq<char>>) -> Result<Seq<char>, Error>
    decreases frames.len(),
{
    if frames.len() == 0 {
        Ok(Seq::<char>::empty())
    } else {
        match answer_of_frames(frames.drop_last()) {
            Err(e) => Err(e),
            Ok(answer) => match frame_delta(frames.last()) {
                Err(e) => Err(e),
                Ok(None) => Ok(answer),
                Ok(Some(delta)) => Ok(answer + delta),
            },
        }
    }
}

/// The frames of a body whose runs of line feeds have been collapsed: the
/// lines of the body without the whitespace at its ends.
pub open spec fn frames_of(collapsed: Seq<char>) -> Seq<Seq<char>> {
    lines(trimmed(collapsed))
}

/// The answer in a body whose runs of line feeds have been collapsed.
pub open spec fn answer_of(collapsed: Seq<char>) -> Result<Seq<char>, Error> {
    answer_of_frames(frames_of(collapsed))
}

/// A body with each run of line feeds replaced by one line feed, as the
/// pattern for such a run has it replaced; the body itself where that pattern
/// is not accepted.
pub open spec fn newlines_collapsed(body: Seq<char>) -> Seq<char> {
    if regex_compiles(NEWLINE_RUN@) {
        regex_replaced(NEWLINE_RUN@, body, NEWLINE@)
    } else {
        body
    }
}

/// The answer in a response body as it arrived.
pub open spec fn decoded(body: Seq<char>) -> Result<Seq<char>, Error> {
    answer_of(newlines_collapsed(body))
}

/// What a frame contributes, as the contracts speak of it.
pub open spec fn delta_view(r: Result<Option<String>, Error>) -> Result<Option<Seq<char>>, Error> {
    match r {
        Ok(Some(text)) => Ok(Some(text@)),
        Ok(None) => Ok(None),
        Err(e) => Err(e),
    }
}

/// An answer as the contracts speak of it.
pub open spec fn answer_view(r: Result<String, Error>) -> Result<Seq<char>, Error> {
    match r {
        Ok(text) => Ok(text@),
        Err(e) => Err(e),
    }
}

/// What each frame contributes where none is malformed: its text, or nothing.
pub open spec fn delta_text(frame: Seq<char>) -> Seq<char> {
    match frame_delta(frame) {
        Ok(Some(delta)) => delta,
        _ => Seq::<char>::empty(),
    }
}

/// The texts that a list of slices holds.
pub open spec fn views(slices: Seq<&[char]>) -> Seq<Seq<char>> {
    Seq::new(slices.len(), |i: int| slices[i]@)
}

/// A frame can fail in one way only.
pub proof fn lemma_frame_error(frame: Seq<char>)
    ensures
        frame_delta(frame) is Err ==> frame_delta(frame) == Err::<Option<Seq<char>>, Error>(
            Error::Decode,
        ),
{
}

/// One malformed frame fails the whole sequence of frames.
pub proof fn lemma_malformed_frame_fails(frames: Seq<Seq<char>>, i: int)
    requires
        0 <= i < frames.len(),
        frame_delta(frames[i]) is Err,
    ensures
        answer_of_frames(frames) == Err::<Seq<char>, Error>(Error::Decode),
    decreases frames.len(),
{
    lemma_frame_error(frames[i]);
    if i < frames.len() - 1 {
        lemma_malformed_frame_fails(frames.drop_last(), i);
    } else {
        lemma_answer_error(frames.drop_last());
    }
}

/// A body can fail in one way only.
pub proof fn lemma_answer_error(frames: Seq<Seq<char>>)
    ensures
        answer_of_frames(frames) is Err ==> answer_of_frames(frames) == Err::<Seq<char>, Error>(
            Error::Decode,
        ),
    decreases frames.len(),
{
    if frames.len() > 0 {
        lemma_answer_error(frames.drop_last());
        lemma_frame_error(frames.last());
    }
}

/// Well-formed frames give the texts of their `completion` members, joined
/// in the order of the frames.
pub proof fn lemma_frames_concatenate(frames: Seq<Seq<char>>)
    requires
        forall|i: int| 0 <= i < frames.len() ==> frame_delta(#[trigger] frames[i]) is Ok,
    ensures
        answer_of_frames(frames) == Ok::<Seq<char>, Error>(
            frames.map_values(|frame: Seq<char>| delta_text(frame)).flatten(),
        ),
    decreases frames.len(),
{
    let texts = frames.map_values(|frame: Seq<char>| delta_text(frame));
    if frames.len() == 0 {
        assert(texts =~= Seq::<Seq<char>>::empty());
    } else {
        let front = frames.drop_last();
        assert forall|i: int| 0 <= i < front.len() implies frame_delta(#[trigger] front[i]) is Ok by {
            assert(front[i] == frames[i]);
        }
        lemma_frames_concatenate(front);
        let front_texts = front.map_values(|frame: Seq<char>| delta_text(frame));
        assert(texts =~= front_texts.push(delta_text(frames.last())));
        front_texts.lemma_flatten_push(delta_text(frames.last()));
        assert(frame_delta(frames[frames.len() - 1]) is Ok);
        assert(front_texts.flatten() + Seq::<char>::empty() =~= front_texts.flatten());
    }
}

/// Where every frame of a body is well formed, the answer is the texts of
/// the frames' `completion` members joined in the order of the frames; a
/// frame without that member adds nothing.
pub proof fn law_answer_concatenates(collapsed: Seq<char>)
    requires
        forall|i: int|
            0 <= i < frames_of(collapsed).len() ==> frame_delta(
                #[trigger] frames_of(collapsed)[i],
            ) is Ok,
    ensures
        answer_of(collapsed) == Ok::<Seq<char>, Error>(
            frames_of(collapsed).map_values(|frame: Seq<char>| delta_text(frame)).flatten(),
        ),
{
    lemma_frames_concatenate(frames_of(collapsed));
}

/// One malformed frame fails the whole body, whatever the other frames hold:
/// the outcome is the error, and no part of an answer.
pub proof fn law_malformed_frame_fails(collapsed: Seq<char>, i: int)
    requires
        0 <= i < frames_of(collapsed).len(),
        frame_delta(frames_of(collapsed)[i]) is Err,
    ensures
        answer_of(collapsed) == Err::<Seq<char>, Error>(Error::Decode),
{
    lemma_malformed_frame_fails(frames_of(collapsed), i);
}

/// A body that holds nothing but whitespace, blank lines for one, gives the
/// empty answer and no error.
pub proof fn law_blank_body_is_empty_answer(collapsed: Seq<char>)
    requires
        is_blank(collapsed),
    ensures
        answer_of(collapsed) == Ok::<Seq<char>, Error>(Seq::<char>::empty()),
{
    lemma_blank_trims_to_nothing(collapsed);
    let body = trimmed(collapsed);
    assert(body =~= Seq::<char>::empty());
    let frames = lines(body);
    assert(frames =~= seq![Seq::<char>::empty()]);
    assert(frames.drop_last() =~= Seq::<Seq<char>>::empty());
    assert(is_blank(frames.last()));
    reveal_with_fuel(answer_of_frames, 2);
}

/// The number of bytes that the UTF-8 encoding of a character takes.
fn width(c: char) -> (r: usize)
    ensures
        r == utf8_width(c),
{
    let code: u32 = c as u32;
    if code < 0x80 {
        1
    } else if code < 0x800 {
        2
    } else if code < 0x10000 {
        3
    } else {
        4
    }
}

/// Drops the characters at the start of `s` that fill exactly `n` bytes in
/// UTF-8.
pub fn strip_bytes<'a>(s: &'a [char], n: usize) -> (r: Option<&'a [char]>)
    ensures
        match r {
            Some(rest) => skip_bytes(s@, n as nat) == Some(rest@),
            None => skip_bytes(s@, n as nat) is None,
        },
{
    let mut i: usize = 0;
    let mut left: usize = n;
    proof {
        assert(s@.skip(0) == s@);
    }
    while left > 0
        invariant
            i <= s.len(),
            skip_bytes(s@, n as nat) == skip_bytes(s@.skip(i as int), left as nat),
        decreases left,
    {
        if i == s.len() {
            return None;
        }
        let w = width(s[i]);
        if w > left {
            return None;
        }
        proof {
            assert(s@.skip(i as int).drop_first() == s@.skip(i + 1));
        }
        left -= w;
        i += 1;
    }
    let rest = slice_subrange(s, i, s.len());
    proof {
        assert(s@.skip(i as int) == s@.subrange(i as int, s.len() as int));
    }
    Some(rest)
}

/// Splits a text at its line feeds.
pub fn split_lines<'a>(s: &'a [char]) -> (r: Vec<&'a [char]>)
    ensures
        views(r@) == lines(s@),
{
    let mut r: Vec<&'a [char]> = Vec::new();
    let mut start: usize = 0;
    let mut i: usize = 0;
    proof {
        assert(s@.take(0) == Seq::<char>::empty());
        assert(views(r@).push(s@.subrange(0, 0)) == seq![Seq::<char>::empty()]);
    }
    while i < s.len()
        invariant
            start <= i <= s.len(),
            lines(s@.take(i as int)) == views(r@).push(s@.subrange(start as int, i as int)),
        decreases s.len() - i,
    {
        let ghost before = lines(s@.take(i as int));
        proof {
            assert(s@.take(i + 1).drop_last() == s@.take(i as int));
            assert(s@.take(i + 1).last() == s@[i as int]);
        }
        if s[i] == '\n' {
            let ghost done = views(r@);
            let ghost line_start = start;
            r.push(slice_subrange(s, start, i));
            start = i + 1;
            proof {
                assert(views(r@) == done.push(s@.subrange(line_start as int, i as int)));
                assert(s@.subrange(start as int, i + 1) == Seq::<char>::empty());
            }
        } else {
            proof {
                assert(before.drop_last() =~= views(r@));
                assert(before.last().push(s@[i as int]) =~= s@.subrange(start as int, i + 1));
            }
        }
        i += 1;
    }
    let ghost done = views(r@);
    r.push(slice_subrange(s, start, s.len()));
    proof {
        assert(s@.take(s.len() as int) == s@);
        assert(views(r@) =~= done.push(s@.subrange(start as int, s.len() as int)));
    }
    r
}

/// What a parsed payload contributes to the answer.
pub fn completion_of(value: &Value) -> (r: Result<Option<String>, Error>)
    ensures
        delta_view(r) == completion(json_tree(*value)),
{
    match member(value, COMPLETION) {
        None => Ok(None),
        Some(found) => match as_str(found) {
            None => Err(Error::Decode),
            Some(text) => Ok(Some(text.to_owned())),
        },
    }
}

/// What one frame contributes to the answer.
pub fn decode_frame(frame: &[char]) -> (r: Result<Option<String>, Error>)
    ensures
        delta_view(r) == frame_delta(frame@),
{
    proof {
        lemma_blank_trims_to_nothing(frame@);
    }
    if trim(frame).len() == 0 {
        return Ok(None);
    }
    match strip_bytes(frame, MARKER_WIDTH) {
        None => Err(Error::Decode),
        Some(rest) => {
            let payload = to_text(trim(rest));
            match from_str(payload.as_str()) {
                Err(_) => Err(Error::Decode),
                Ok(value) => completion_of(&value),
            }
        },
    }
}

/// Reads the answer from a body whose runs of line feeds have been collapsed.
pub fn decode_collapsed(collapsed: &str) -> (r: Result<String, Error>)
    ensures
        answer_view(r) == answer_of(collapsed@),
{
    let chars = to_chars(collapsed);
    let frames = split_lines(trim(chars.as_slice()));
    let mut answer = String::new();
    let mut i: usize = 0;
    while i < frames.len()
        invariant
            i <= frames.len(),
            views(frames@) == frames_of(collapsed@),
            answer_of_frames(views(frames@).take(i as int)) == Ok::<Seq<char>, Error>(answer@),
        decreases frames.len() - i,
    {
        let ghost all = views(frames@);
        proof {
            assert(all.take(i + 1).drop_last() == all.take(i as int));
            assert(all.take(i + 1).last() == frames@[i as int]@);
        }
        match decode_frame(frames[i]) {
            Err(e) => {
                proof {
                    lemma_malformed_frame_fails(all, i as int);
                    lemma_frame_error(all[i as int]);
                }
                return Err(e);
            },
            Ok(None) => {},
            Ok(Some(delta)) => {
                answer.append(delta.as_str());
            },
        }
        i += 1;
    }
    proof {
        assert(views(frames@).take(frames.len() as int) == views(frames@));
    }
    Ok(answer)
}

/// The body with each run of line feeds collapsed into one.
pub fn collapse_newlines(body: &str) -> (r: String)
    ensures
        r@ == newlines_collapsed(body@),
{
    match compile(NEWLINE_RUN) {
        Err(_) => body.to_owned(),
        Ok(newline_run) => replace_all(&newline_run, body, NEWLINE),
    }
}

/// Reads the answer from a response body: collapses each run of line feeds
/// into one, then reads the frames.
pub fn decode(body: &str) -> (r: Result<String, Error>)
    ensures
        answer_view(r) == decoded(body@),
{
    decode_collapsed(collapse_newlines(body).as_str())
}

} // verus!

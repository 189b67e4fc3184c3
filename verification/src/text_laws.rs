//! What trimming, joining and writing numbers come to, and how long spans are.
use vstd::prelude::*;
use vstd::utf8::*;

use crate::text::{
    as_text, content, contents, decimal, digit, encoded_text_is_read_back, is_white_space, joined,
    left_trimmed, left_trimmed_from, lossy, right_trimmed_to, trimmed,
};
use crate::time::{
    end_second, longest, milliseconds, reaches, seconds, shift, TimeSpan, UnixTime,
};

verus! {

/// The code points that Unicode counts as white space.
pub open spec fn is_blank(c: char) -> bool {
    let code = c as u32;
    ||| 0x9 <= code <= 0xd
    ||| code == 0x20
    ||| code == 0x85
    ||| code == 0xa0
    ||| code == 0x1680
    ||| 0x2000 <= code <= 0x200a
    ||| code == 0x2028
    ||| code == 0x2029
    ||| code == 0x202f
    ||| code == 0x205f
    ||| code == 0x3000
}

/// White space is what Unicode says it is.
pub proof fn white_space_is_blank(c: char)
    ensures
        is_white_space(c) <==> is_blank(c),
{
}

/// Trimming at the front cuts the white space that a text begins with, and
/// nothing else.
pub proof fn left_trimming_cuts_blanks(s: Seq<char>, from: int)
    requires
        0 <= from <= s.len(),
        forall|i: int| 0 <= i < from ==> is_blank(#[trigger] s[i]),
        from < s.len() ==> !is_blank(s[from]),
    ensures
        left_trimmed(s) == s.skip(from),
{
    assert forall|i: int| 0 <= i < from implies is_white_space(#[trigger] s[i]) by {
        white_space_is_blank(s[i]);
    }
    if from < s.len() {
        white_space_is_blank(s[from]);
    }
    left_trimmed_from(s, from);
}

/// Trimming cuts the white space that a text begins and ends with, and nothing
/// else.
pub proof fn trimming_cuts_blanks(s: Seq<char>, from: int, to: int)
    requires
        0 <= from <= to <= s.len(),
        forall|i: int| 0 <= i < from ==> is_blank(#[trigger] s[i]),
        forall|i: int| to <= i < s.len() ==> is_blank(#[trigger] s[i]),
        from < to ==> !is_blank(s[from]) && !is_blank(s[to - 1]),
        from == to ==> from == s.len(),
    ensures
        trimmed(s) == s.subrange(from, to),
{
    left_trimming_cuts_blanks(s, from);
    let left = s.skip(from);
    assert forall|i: int| to - from <= i < left.len() implies is_white_space(
        #[trigger] left[i],
    ) by {
        assert(is_blank(s[i + from]));
        white_space_is_blank(left[i]);
    }
    if from < to {
        white_space_is_blank(s[to - 1]);
    }
    right_trimmed_to(left, to - from);
    assert(left.take(to - from) =~= s.subrange(from, to));
}

/// The number that decimal digits stand for.
pub open spec fn number(digits: Seq<char>) -> int
    decreases digits.len(),
{
    if digits.len() == 0 {
        0
    } else {
        number(digits.drop_last()) * 10 + (digits.last() as u32 - 48)
    }
}

/// A number is written with decimal digits that stand for it, without a zero in
/// front.
pub proof fn decimals_stand_for_numbers(n: nat)
    ensures
        decimal(n).len() > 0,
        forall|i: int| 0 <= i < decimal(n).len() ==> '0' <= #[trigger] decimal(n)[i] <= '9',
        number(decimal(n)) == n,
        n > 0 ==> decimal(n)[0] != '0',
    decreases n,
{
    reveal_with_fuel(number, 2);
    if n < 10 {
        let text = decimal(n);
        assert(text =~= seq![digit(n)]);
        assert(text.drop_last() =~= Seq::<char>::empty());
        assert(text.last() as u32 == 48 + n);
    } else {
        decimals_stand_for_numbers(n / 10);
        let text = decimal(n);
        assert(text.drop_last() =~= decimal(n / 10));
        assert(text.last() as u32 == 48 + n % 10);
        assert forall|i: int| 0 <= i < text.len() implies '0' <= #[trigger] text[i] <= '9' by {
            if i < text.len() - 1 {
                assert(text[i] == decimal(n / 10)[i]);
            }
        }
        assert(text[0] == decimal(n / 10)[0]);
    }
}

/// Texts are joined in order, with the separator between each two.
pub proof fn joining_separates(parts: Seq<Seq<char>>, part: Seq<char>, separator: Seq<char>)
    ensures
        joined(Seq::empty(), separator) == Seq::<char>::empty(),
        joined(seq![part], separator) == part,
        parts.len() > 0 ==> joined(parts.push(part), separator) == joined(parts, separator)
            + separator + part,
{
    assert(parts.push(part).drop_last() =~= parts);
}

/// Bytes are read as the text that they encode, and otherwise with what is
/// broken replaced.
pub proof fn bytes_are_read_as_text(text: Seq<char>, bytes: Seq<u8>)
    ensures
        as_text(encode_utf8(text)) == text,
        valid_utf8(bytes) ==> as_text(bytes) == decode_utf8(bytes),
        !valid_utf8(bytes) ==> as_text(bytes) == lossy(bytes),
{
    encoded_text_is_read_back(text);
}

/// The contents of texts are their characters.
pub proof fn texts_hold_their_characters(text: String, list: Seq<String>, at: int)
    requires
        0 <= at < list.len(),
    ensures
        content(Some(text)) == Some(text@),
        content(None) == None::<Seq<char>>,
        contents(list).len() == list.len(),
        contents(list)[at] == list[at]@,
{
}

/// Spans are as long as their parts add up to.
pub proof fn spans_add_up(span: TimeSpan, secs: u64, millis: u64)
    ensures
        span.length() == span.secs * 1_000_000_000 + span.nanos,
        span.wf() <==> span.nanos < 1_000_000_000,
        seconds(secs).length() == secs * 1_000_000_000,
        seconds(secs).wf(),
        milliseconds(millis).length() == millis * 1_000_000,
        milliseconds(millis).wf(),
        longest() == 0xffff_ffff_ffff_ffff * 1_000_000_000 + 999_999_999,
{
}

/// A reading is a date from the epoch on, up to the end of the calendar.
pub proof fn dates_begin_with_the_epoch(now: UnixTime)
    ensures
        now.wf() <==> 0 <= now.secs <= 8_210_266_876_799 && now.nanos < 1_000_000_000,
        now.instant() == now.secs * 1_000_000_000 + now.nanos,
{
}

/// A span that begins at a clock reading ends that much later, in the second in
/// which it is over; one of more than the 64-bit milliseconds does not count.
pub proof fn spans_end_when_they_are_over(now: UnixTime, span: TimeSpan)
    requires
        0 <= now.secs <= 8_210_266_876_799,
        now.nanos < 1_000_000_000,
        span.nanos < 1_000_000_000,
    ensures
        ({
            let end = now.secs * 1_000_000_000 + now.nanos + span.secs * 1_000_000_000 + span.nanos;
            let counts = span.secs * 1_000_000_000 + span.nanos <= 0x7fff_ffff_ffff_ffff
                * 1_000_000;
            &&& counts ==> end_second(now, span) * 1_000_000_000 <= end
            &&& counts ==> end < (end_second(now, span) + 1) * 1_000_000_000
            &&& !counts ==> end_second(now, span) == now.secs
            &&& counts ==> (reaches(now, span) <==> end < 8_210_266_876_800 * 1_000_000_000)
            &&& !counts ==> reaches(now, span)
        }),
{
    assert(shift(span) >= 0);
}

} // verus!

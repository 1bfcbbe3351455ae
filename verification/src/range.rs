//! The `Range` header of a download request.
//!
//! A header has the form `bytes=<start>-[<end>]`, both numbers in decimal.
//! HTTP counts the end in; the protocol towards the hoster counts it out, so
//! the end is moved up by one here, and nowhere else.

use vstd::prelude::*;
use crate::text::{
    all_digits, chars_of, decimal_value, is_decimal_digit, is_digit, parse_decimal,
};

verus! {

/// A range of bytes: from `start`, up to but not including `end`; up to
/// wherever the hoster decides where `end` is `None`.
#[derive(Clone, Copy, Debug, PartialEq, Eq, Structural)]
pub struct ByteRange {
    pub start: u64,
    pub end: Option<u64>,
}

/// The range that a hoster says it serves: from `start`, up to but not
/// including `end`.
#[derive(Clone, Copy, Debug, PartialEq, Eq, Structural)]
pub struct ServedRange {
    pub start: u64,
    pub end: u64,
}

impl ServedRange {
    /// A served range has a last byte, at or after its start: both
    /// `end - 1` and `end - start` are byte counts.
    pub open spec fn wf(self) -> bool {
        self.start <= self.end && 1 <= self.end
    }
}

/// A `Range` header that is not of the form `bytes=<start>-[<end>]`, or whose
/// numbers do not fit in 64 bits.
#[derive(Clone, Copy, Debug, PartialEq, Eq, Structural)]
pub struct MalformedRange {}

/// How many decimal digits `text` starts with.
pub open spec fn digit_run(text: Seq<char>) -> nat
    decreases text.len(),
{
    if text.len() > 0 && is_digit(text[0]) {
        1 + digit_run(text.drop_first())
    } else {
        0
    }
}

/// What a `Range` header asks for. The empty header asks for the whole file.
pub open spec fn range_of(header: Seq<char>) -> Result<Option<ByteRange>, MalformedRange> {
    if header.len() == 0 {
        Ok(None)
    } else if !"bytes="@.is_prefix_of(header) {
        Err(MalformedRange {  })
    } else {
        let body = header.skip(6);
        let first = body.take(digit_run(body) as int);
        let rest = body.skip(digit_run(body) as int);
        if first.len() == 0 || rest.len() == 0 || rest[0] != '-' {
            Err(MalformedRange {  })
        } else {
            let last = rest.skip(1);
            if !all_digits(last) || decimal_value(first) > u64::MAX {
                Err(MalformedRange {  })
            } else if last.len() == 0 {
                Ok(Some(ByteRange { start: decimal_value(first) as u64, end: None }))
            } else if decimal_value(last) >= u64::MAX {
                Err(MalformedRange {  })
            } else {
                Ok(
                    Some(
                        ByteRange {
                            start: decimal_value(first) as u64,
                            end: Some((decimal_value(last) + 1) as u64),
                        },
                    ),
                )
            }
        }
    }
}

/// The digits that `text` starts with end where the first other character
/// stands.
pub proof fn lemma_digit_run(text: Seq<char>, k: int)
    requires
        0 <= k <= text.len(),
        all_digits(text.take(k)),
        k == text.len() || !is_digit(text[k]),
    ensures
        digit_run(text) == k,
    decreases k,
{
    if k > 0 {
        assert(text.take(k)[0] == text[0]);
        assert forall|i: int| 0 <= i < k - 1 implies is_digit(
            #[trigger] text.drop_first().take(k - 1)[i],
        ) by {
            assert(text.drop_first().take(k - 1)[i] == text.take(k)[i + 1]);
        }
        lemma_digit_run(text.drop_first(), k - 1);
    }
}

/// The digits that `text` starts with are digits.
pub proof fn lemma_digit_run_digits(text: Seq<char>)
    ensures
        digit_run(text) <= text.len(),
        all_digits(text.take(digit_run(text) as int)),
    decreases text.len(),
{
    if text.len() > 0 && is_digit(text[0]) {
        lemma_digit_run_digits(text.drop_first());
        let n = digit_run(text) as int;
        assert forall|i: int| 0 <= i < n implies is_digit(#[trigger] text.take(n)[i]) by {
            if i > 0 {
                assert(text.take(n)[i] == text.drop_first().take(n - 1)[i - 1]);
            }
        }
    }
}

/// Every header written as `bytes=`, digits, a hyphen and digits is read as
/// those two numbers, the second moved up by one; with no digits after the
/// hyphen the end is left open.
pub proof fn lemma_range_of_grammar(start: Seq<char>, end: Seq<char>)
    requires
        start.len() > 0,
        all_digits(start),
        all_digits(end),
        decimal_value(start) <= u64::MAX,
        end.len() > 0 ==> decimal_value(end) < u64::MAX,
    ensures
        range_of("bytes="@ + start + seq!['-'] + end) == Ok::<Option<ByteRange>, MalformedRange>(
            Some(
                ByteRange {
                    start: decimal_value(start) as u64,
                    end: if end.len() == 0 {
                        None
                    } else {
                        Some((decimal_value(end) + 1) as u64)
                    },
                },
            ),
        ),
{
    reveal_strlit("bytes=");
    let header = "bytes="@ + start + seq!['-'] + end;
    let body = header.skip(6);
    assert(body.take(start.len() as int) == start);
    lemma_digit_run(body, start.len() as int);
    assert(body.skip(start.len() as int).skip(1) == end);
}

/// Every header that is read as a range is written as `bytes=`, one or more
/// digits, a hyphen and digits, with nothing before, between or after, and
/// is read as the numbers those digits stand for.
pub proof fn lemma_range_of_shape(header: Seq<char>)
    requires
        range_of(header) matches Ok(Some(_)),
    ensures
        ({
            let body = header.skip(6);
            let start = body.take(digit_run(body) as int);
            let end = body.skip(digit_run(body) as int + 1);
            &&& header == "bytes="@ + start + seq!['-'] + end
            &&& start.len() > 0
            &&& all_digits(start)
            &&& all_digits(end)
            &&& range_of(header)->Ok_0->0.start == decimal_value(start)
            &&& range_of(header)->Ok_0->0.end == if end.len() == 0 {
                None::<u64>
            } else {
                Some((decimal_value(end) + 1) as u64)
            }
        }),
{
    reveal_strlit("bytes=");
    let body = header.skip(6);
    let n = digit_run(body) as int;
    lemma_digit_run_digits(body);
    assert(body.skip(n).skip(1) == body.skip(n + 1));
}

/// Reads a `Range` header. The empty header asks for the whole file; a
/// header of the form `bytes=<start>-[<end>]` asks for the bytes from
/// `start` up to and including `end`; anything else is refused.
pub fn parse_range_header(header: &str) -> (range: Result<Option<ByteRange>, MalformedRange>)
    ensures
        range == range_of(header@),
{
    let chars = chars_of(header);
    let len = chars.len();
    if len == 0 {
        return Ok(None);
    }
    proof {
        reveal_strlit("bytes=");
    }
    if len < 6 || chars[0] != 'b' || chars[1] != 'y' || chars[2] != 't' || chars[3] != 'e'
        || chars[4] != 's' || chars[5] != '=' {
        proof {
            if len >= 6 {
                let unit = header@.subrange(0, 6);
                assert(unit[0] == header@[0] && unit[1] == header@[1] && unit[2] == header@[2]);
                assert(unit[3] == header@[3] && unit[4] == header@[4] && unit[5] == header@[5]);
            }
        }
        return Err(MalformedRange {  });
    }
    let ghost body = header@.skip(6);
    let mut dash: usize = 6;
    while dash < len && is_decimal_digit(chars[dash])
        invariant
            6 <= dash <= len,
            len == chars.len(),
            chars@ == header@,
            body == header@.skip(6),
            all_digits(body.take(dash - 6)),
        decreases len - dash,
    {
        assert(body.take(dash - 6 + 1) == body.take(dash - 6).push(header@[dash as int]));
        dash = dash + 1;
    }
    proof {
        lemma_digit_run(body, dash - 6);
    }
    if dash == 6 || dash == len || chars[dash] != '-' {
        return Err(MalformedRange {  });
    }
    let ghost first = body.take(dash - 6);
    let ghost last = body.skip(dash - 6).skip(1);
    assert(first == chars@.subrange(6, dash as int));
    assert(last == chars@.subrange(dash + 1, len as int));
    let start = match parse_decimal(&chars, 6, dash) {
        Some(start) => start,
        None => { return Err(MalformedRange {  }); },
    };
    if dash + 1 == len {
        return Ok(Some(ByteRange { start, end: None }));
    }
    match parse_decimal(&chars, dash + 1, len) {
        Some(last_byte) => if last_byte == u64::MAX {
            Err(MalformedRange {  })
        } else {
            Ok(Some(ByteRange { start, end: Some(last_byte + 1) }))
        },
        None => Err(MalformedRange {  }),
    }
}

} // verus!

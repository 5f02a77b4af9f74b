//! Looking up the length of a contig in the lines of a file header.

use vstd::prelude::*;

verus! {

/// One line of a header, reduced to what the lookup reads.
#[derive(Clone, Debug)]
pub enum HeaderEntry {
    /// A contig line, with the text of its `length` key where the line has that key.
    Contig { length: Option<Vec<u8>> },
    /// A line of any other kind.
    Other,
}

/// Why no length was found.
#[derive(Clone, Copy, Debug, PartialEq, Eq, Structural)]
pub enum ContigError {
    /// The wanted contig line has no `length` key.
    LengthNotFound,
    /// The wanted contig line states a length that is not an unsigned decimal number.
    LengthUnreadable,
    /// The header has too few contig lines.
    ContigNotFound,
}

/// The byte is an ASCII decimal digit.
pub open spec fn is_digit(b: u8) -> bool {
    0x30 <= b <= 0x39
}

/// Every byte is a decimal digit.
pub open spec fn all_digits(s: Seq<u8>) -> bool {
    forall|i: int| 0 <= i < s.len() ==> is_digit(#[trigger] s[i])
}

/// The number that a string of decimal digits denotes; zero for the empty string.
pub open spec fn decimal_value(s: Seq<u8>) -> int
    decreases s.len(),
{
    if s.len() == 0 {
        0
    } else {
        10 * decimal_value(s.drop_last()) + (s.last() - 0x30)
    }
}

/// The text without one leading plus sign.
pub open spec fn without_sign(s: Seq<u8>) -> Seq<u8> {
    if s.len() > 0 && s[0] == 0x2b {
        s.subrange(1, s.len() as int)
    } else {
        s
    }
}

/// The number that a text denotes: an optional plus sign and then one or more decimal
/// digits whose value fits in 64 bits. Any other text denotes none.
pub open spec fn parsed_u64(s: Seq<u8>) -> Option<u64> {
    let digits = without_sign(s);
    if digits.len() > 0 && all_digits(digits) && decimal_value(digits) <= u64::MAX {
        Some(decimal_value(digits) as u64)
    } else {
        None
    }
}

/// The value of a digit string is at least the value of each of its prefixes.
proof fn lemma_prefix_value(s: Seq<u8>, k: int)
    requires
        all_digits(s),
        0 <= k <= s.len(),
    ensures
        0 <= decimal_value(s.take(k)) <= decimal_value(s),
    decreases s.len() - k,
{
    if k == s.len() {
        assert(s.take(k) == s);
        lemma_value_not_negative(s);
    } else {
        lemma_prefix_value(s, k + 1);
        assert(s.take(k + 1).drop_last() == s.take(k));
        assert(is_digit(s[k]));
        assert(s.take(k + 1).last() == s[k]);
        lemma_value_not_negative(s.take(k));
    }
}

proof fn lemma_value_not_negative(s: Seq<u8>)
    requires
        all_digits(s),
    ensures
        0 <= decimal_value(s),
    decreases s.len(),
{
    if s.len() > 0 {
        assert(is_digit(s.last()));
        lemma_value_not_negative(s.drop_last());
    }
}

/// Reads an unsigned decimal number.
pub fn parse_decimal_u64(text: &Vec<u8>) -> (r: Option<u64>)
    ensures
        r == parsed_u64(text@),
{
    let n: usize = text.len();
    let start: usize = if n > 0 && text[0] == 0x2b {
        1
    } else {
        0
    };
    let ghost digits = without_sign(text@);
    assert(digits == text@.subrange(start as int, n as int));
    if start == n {
        return None;
    }
    let mut value: u64 = 0;
    let mut i: usize = start;
    while i < n
        invariant
            start <= i <= n,
            n == text.len(),
            digits == without_sign(text@),
            digits == text@.subrange(start as int, n as int),
            all_digits(digits.take(i - start)),
            value == decimal_value(digits.take(i - start)),
        decreases n - i,
    {
        let b: u8 = text[i];
        let ghost prefix = digits.take(i - start + 1);
        proof {
            assert(digits[i - start] == b);
            assert(prefix.drop_last() == digits.take(i - start));
            assert(prefix.last() == b);
        }
        if b < 0x30 || b > 0x39 {
            assert(!is_digit(digits[i - start]));
            return None;
        }
        let digit: u64 = (b - 0x30) as u64;
        if value > (u64::MAX - digit) / 10 {
            proof {
                assert(decimal_value(prefix) > u64::MAX);
                if all_digits(digits) {
                    lemma_prefix_value(digits, i - start + 1);
                }
            }
            return None;
        }
        value = 10 * value + digit;
        proof {
            assert forall|j: int| 0 <= j < prefix.len() implies is_digit(#[trigger] prefix[j]) by {
                if j < i - start {
                    assert(prefix[j] == digits.take(i - start)[j]);
                }
            }
        }
        i += 1;
    }
    proof {
        assert(digits.take(n - start) == digits);
    }
    Some(value)
}

/// The outcome of the lookup on the entries from `start` on, with `skip` contig lines still
/// to pass over: the length that the contig line after those states. Only that one line
/// decides; where it states no length, or one that cannot be read, the lookup fails.
pub open spec fn contig_length_from(entries: Seq<HeaderEntry>, start: int, skip: nat) -> Result<
    u64,
    ContigError,
>
    decreases entries.len() - start,
{
    if start < 0 || start >= entries.len() {
        Err(ContigError::ContigNotFound)
    } else {
        match entries[start] {
            HeaderEntry::Other => contig_length_from(entries, start + 1, skip),
            HeaderEntry::Contig { length } => {
                if skip > 0 {
                    contig_length_from(entries, start + 1, (skip - 1) as nat)
                } else {
                    match length {
                        None => Err(ContigError::LengthNotFound),
                        Some(text) => match parsed_u64(text@) {
                            Some(value) => Ok(value),
                            None => Err(ContigError::LengthUnreadable),
                        },
                    }
                }
            },
        }
    }
}

/// The length of the contig with index `rid`, counting the contig lines of the header from
/// zero. The length of another contig is never given in its place.
pub fn find_contig_length(records: &Vec<HeaderEntry>, rid: u32) -> (r: Result<u64, ContigError>)
    ensures
        r == contig_length_from(records@, 0, rid as nat),
{
    let mut seen: u32 = 0;
    let mut i: usize = 0;
    while i < records.len()
        invariant
            i <= records.len(),
            seen <= rid,
            contig_length_from(records@, i as int, (rid - seen) as nat) == contig_length_from(
                records@,
                0,
                rid as nat,
            ),
        decreases records.len() - i,
    {
        match &records[i] {
            HeaderEntry::Contig { length } => {
                if seen < rid {
                    seen += 1;
                } else {
                    match length {
                        None => {
                            return Err(ContigError::LengthNotFound);
                        },
                        Some(text) => {
                            match parse_decimal_u64(text) {
                                Some(value) => {
                                    return Ok(value);
                                },
                                None => {
                                    return Err(ContigError::LengthUnreadable);
                                },
                            }
                        },
                    }
                }
            },
            HeaderEntry::Other => {},
        }
        i += 1;
    }
    Err(ContigError::ContigNotFound)
}

} // verus!

//! String helpers: decimal formatting, appending, and the C-string byte
//! sanitising used for every string handed to the frontend.

use vstd::prelude::*;
use vstd::string::{StrSliceExecFns, StringSliceAdditionalSpecFns};

verus! {

/// The ASCII digit for `d` (0 to 9).
pub open spec fn spec_digit(d: nat) -> char {
    if d == 0 {
        '0'
    } else if d == 1 {
        '1'
    } else if d == 2 {
        '2'
    } else if d == 3 {
        '3'
    } else if d == 4 {
        '4'
    } else if d == 5 {
        '5'
    } else if d == 6 {
        '6'
    } else if d == 7 {
        '7'
    } else if d == 8 {
        '8'
    } else {
        '9'
    }
}

/// The decimal notation of `n`, without leading zeros.
pub open spec fn spec_decimal(n: nat) -> Seq<char>
    decreases n,
{
    if n < 10 {
        seq![spec_digit(n)]
    } else {
        spec_decimal(n / 10).push(spec_digit(n % 10))
    }
}

fn digit_char(d: u32) -> (c: char)
    requires
        d < 10,
    ensures
        c == spec_digit(d as nat),
{
    if d == 0 {
        '0'
    } else if d == 1 {
        '1'
    } else if d == 2 {
        '2'
    } else if d == 3 {
        '3'
    } else if d == 4 {
        '4'
    } else if d == 5 {
        '5'
    } else if d == 6 {
        '6'
    } else if d == 7 {
        '7'
    } else if d == 8 {
        '8'
    } else {
        '9'
    }
}

/// Calls std's `String::push`, which appends `c` to the string.
#[verifier::external_body]
pub(crate) fn push_char(s: &mut String, c: char)
    ensures
        final(s)@ == old(s)@.push(c),
{
    s.push(c);
}

/// Appends `t` to `s`.
pub fn push_str(s: &mut String, t: &str)
    ensures
        final(s)@ == old(s)@ + t@,
{
    s.append(t);
}

/// Formats `n` in decimal.
pub fn u32_to_decimal(n: u32) -> (text: String)
    ensures
        text@ == spec_decimal(n as nat),
    decreases n,
{
    if n < 10 {
        let mut text = String::new();
        push_char(&mut text, digit_char(n));
        text
    } else {
        let mut text = u32_to_decimal(n / 10);
        push_char(&mut text, digit_char(n % 10));
        text
    }
}

/// Formats `n` in decimal.
pub fn u64_to_decimal(n: u64) -> (text: String)
    ensures
        text@ == spec_decimal(n as nat),
    decreases n,
{
    if n < 10 {
        let mut text = String::new();
        push_char(&mut text, digit_char(n as u32));
        text
    } else {
        let mut text = u64_to_decimal(n / 10);
        push_char(&mut text, digit_char((n % 10) as u32));
        text
    }
}

/// Unicode `White_Space`, the set `char::is_whitespace` tests.
pub open spec fn spec_is_whitespace(c: char) -> bool {
    let v = c as u32;
    ||| 0x09 <= v <= 0x0d
    ||| v == 0x20 || v == 0x85 || v == 0xa0 || v == 0x1680
    ||| 0x2000 <= v <= 0x200a
    ||| v == 0x2028 || v == 0x2029 || v == 0x202f || v == 0x205f || v == 0x3000
}

/// Whether `c` is Unicode white space.
pub fn is_whitespace(c: char) -> (ws: bool)
    ensures
        ws == spec_is_whitespace(c),
{
    let v = c as u32;
    (0x09 <= v && v <= 0x0d) || v == 0x20 || v == 0x85 || v == 0xa0 || v == 0x1680 || (0x2000
        <= v && v <= 0x200a) || v == 0x2028 || v == 0x2029 || v == 0x202f || v == 0x205f || v
        == 0x3000
}

/// Words found so far and the word being read, after reading `s`.
pub open spec fn spec_split_whitespace_state(s: Seq<char>) -> (Seq<Seq<char>>, Seq<char>)
    decreases s.len(),
{
    if s.len() == 0 {
        (Seq::empty(), Seq::empty())
    } else {
        let (words, current) = spec_split_whitespace_state(s.drop_last());
        let c = s.last();
        if spec_is_whitespace(c) {
            if current.len() > 0 {
                (words.push(current), Seq::empty())
            } else {
                (words, Seq::empty())
            }
        } else {
            (words, current.push(c))
        }
    }
}

/// The maximal runs of non-white-space characters of `s`, in order
/// (`str::split_whitespace`).
pub open spec fn spec_split_whitespace(s: Seq<char>) -> Seq<Seq<char>> {
    let (words, current) = spec_split_whitespace_state(s);
    if current.len() > 0 {
        words.push(current)
    } else {
        words
    }
}

proof fn lemma_split_whitespace_state_nonempty(s: Seq<char>)
    ensures
        forall|i: int|
            0 <= i < spec_split_whitespace_state(s).0.len() ==> #[trigger] spec_split_whitespace_state(
                s,
            ).0[i].len() > 0,
    decreases s.len(),
{
    if s.len() > 0 {
        lemma_split_whitespace_state_nonempty(s.drop_last());
        let (words, current) = spec_split_whitespace_state(s.drop_last());
        let next = spec_split_whitespace_state(s).0;
        assert forall|i: int| 0 <= i < next.len() implies #[trigger] next[i].len() > 0 by {
            if i < words.len() {
                assert(next[i] == words[i]);
            }
        }
    }
}

/// Every word that `split_whitespace` finds holds at least one character.
pub proof fn lemma_split_whitespace_nonempty(s: Seq<char>)
    ensures
        forall|i: int|
            0 <= i < spec_split_whitespace(s).len() ==> #[trigger] spec_split_whitespace(s)[i].len()
                > 0,
{
    lemma_split_whitespace_state_nonempty(s);
}

/// Splits `s` into its white-space separated words.
pub fn split_whitespace(s: &[char]) -> (words: Vec<Vec<char>>)
    ensures
        words@.len() == spec_split_whitespace(s@).len(),
        forall|i: int| 0 <= i < words@.len() ==> #[trigger] words@[i]@ == spec_split_whitespace(s@)[i],
{
    let mut words: Vec<Vec<char>> = Vec::new();
    let mut current: Vec<char> = Vec::new();
    let mut i: usize = 0;
    while i < s.len()
        invariant
            i <= s.len(),
            words@.len() == spec_split_whitespace_state(s@.take(i as int)).0.len(),
            forall|j: int|
                0 <= j < words@.len() ==> #[trigger] words@[j]@ == spec_split_whitespace_state(
                    s@.take(i as int),
                ).0[j],
            current@ == spec_split_whitespace_state(s@.take(i as int)).1,
        decreases s.len() - i,
    {
        proof {
            assert(s@.take(i + 1).drop_last() =~= s@.take(i as int));
        }
        let c = s[i];
        if is_whitespace(c) {
            if current.len() > 0 {
                let word = current;
                words.push(word);
                current = Vec::new();
            }
        } else {
            current.push(c);
        }
        i = i + 1;
    }
    proof {
        assert(s@.take(i as int) =~= s@);
    }
    if current.len() > 0 {
        words.push(current);
    }
    words
}

/// `line` without one trailing carriage return.
pub open spec fn spec_strip_cr(line: Seq<char>) -> Seq<char> {
    if line.len() > 0 && line.last() == '\r' {
        line.drop_last()
    } else {
        line
    }
}

/// Lines completed so far and the line being read, after reading `s`.
pub open spec fn spec_lines_state(s: Seq<char>) -> (Seq<Seq<char>>, Seq<char>)
    decreases s.len(),
{
    if s.len() == 0 {
        (Seq::empty(), Seq::empty())
    } else {
        let (lines, current) = spec_lines_state(s.drop_last());
        let c = s.last();
        if c == '\n' {
            (lines.push(spec_strip_cr(current)), Seq::empty())
        } else {
            (lines, current.push(c))
        }
    }
}

/// The lines of `s` (`str::lines`): split at `\n`, a `\r` right before a
/// `\n` dropped, and no empty line after a final `\n`.
pub open spec fn spec_lines(s: Seq<char>) -> Seq<Seq<char>> {
    let (lines, current) = spec_lines_state(s);
    if current.len() > 0 {
        lines.push(current)
    } else {
        lines
    }
}

/// Splits `s` into lines.
pub fn lines(s: &[char]) -> (result: Vec<Vec<char>>)
    ensures
        result@.len() == spec_lines(s@).len(),
        forall|i: int| 0 <= i < result@.len() ==> #[trigger] result@[i]@ == spec_lines(s@)[i],
{
    let mut result: Vec<Vec<char>> = Vec::new();
    let mut current: Vec<char> = Vec::new();
    let mut i: usize = 0;
    while i < s.len()
        invariant
            i <= s.len(),
            result@.len() == spec_lines_state(s@.take(i as int)).0.len(),
            forall|j: int|
                0 <= j < result@.len() ==> #[trigger] result@[j]@ == spec_lines_state(
                    s@.take(i as int),
                ).0[j],
            current@ == spec_lines_state(s@.take(i as int)).1,
        decreases s.len() - i,
    {
        proof {
            assert(s@.take(i + 1).drop_last() =~= s@.take(i as int));
        }
        let c = s[i];
        if c == '\n' {
            let mut line = current;
            if line.len() > 0 && line[line.len() - 1] == '\r' {
                line.pop();
            }
            result.push(line);
            current = Vec::new();
        } else {
            current.push(c);
        }
        i = i + 1;
    }
    proof {
        assert(s@.take(i as int) =~= s@);
    }
    if current.len() > 0 {
        result.push(current);
    }
    result
}

/// The characters of a string.
pub fn str_chars(s: &str) -> (chars: Vec<char>)
    ensures
        chars@ == s@,
{
    let n = s.unicode_len();
    let mut chars: Vec<char> = Vec::new();
    let mut i: usize = 0;
    while i < n
        invariant
            n == s@.len(),
            i <= n,
            chars@ == s@.take(i as int),
        decreases n - i,
    {
        chars.push(s.get_char(i));
        i = i + 1;
        assert(chars@ =~= s@.take(i as int));
    }
    assert(s@.take(n as int) =~= s@);
    chars
}

/// A string holding `chars`.
pub fn string_from_chars(chars: &[char]) -> (text: String)
    ensures
        text@ == chars@,
{
    let mut text = String::new();
    let mut i: usize = 0;
    while i < chars.len()
        invariant
            i <= chars.len(),
            text@ == chars@.take(i as int),
        decreases chars.len() - i,
    {
        push_char(&mut text, chars[i]);
        i = i + 1;
        assert(text@ =~= chars@.take(i as int));
    }
    assert(chars@.take(chars@.len() as int) =~= chars@);
    text
}

/// `bytes` without its NUL bytes, in order.
pub open spec fn spec_without_nul(bytes: Seq<u8>) -> Seq<u8>
    decreases bytes.len(),
{
    if bytes.len() == 0 {
        Seq::empty()
    } else if bytes.last() == 0 {
        spec_without_nul(bytes.drop_last())
    } else {
        spec_without_nul(bytes.drop_last()).push(bytes.last())
    }
}

proof fn lemma_without_nul_facts(bytes: Seq<u8>)
    ensures
        forall|i: int| 0 <= i < spec_without_nul(bytes).len() ==> #[trigger] spec_without_nul(bytes)[i] != 0,
        (forall|i: int| 0 <= i < bytes.len() ==> #[trigger] bytes[i] != 0) ==> spec_without_nul(bytes) == bytes,
    decreases bytes.len(),
{
    if bytes.len() > 0 {
        lemma_without_nul_facts(bytes.drop_last());
        let rest = spec_without_nul(bytes.drop_last());
        if bytes.last() != 0 {
            let all = rest.push(bytes.last());
            assert forall|i: int| 0 <= i < all.len() implies #[trigger] all[i] != 0 by {
                if i < rest.len() {
                    assert(all[i] == rest[i]);
                }
            }
        }
        if forall|i: int| 0 <= i < bytes.len() ==> #[trigger] bytes[i] != 0 {
            assert(forall|i: int| 0 <= i < bytes.drop_last().len() ==> #[trigger] bytes.drop_last()[i] == bytes[i]);
            assert(bytes.last() == bytes[bytes.len() - 1]);
            assert(bytes.drop_last().push(bytes.last()) =~= bytes);
        }
    }
}

/// The bytes of `value` for a C string: the UTF-8 bytes without any NUL
/// byte, so that none is left inside the string and, where `value` had none,
/// the bytes are unchanged.
pub fn sanitize_cstring_bytes(value: &str) -> (bytes: Vec<u8>)
    ensures
        bytes@ == spec_without_nul(value.spec_bytes()),
        forall|i: int| 0 <= i < bytes@.len() ==> #[trigger] bytes@[i] != 0,
        (forall|i: int| 0 <= i < value.spec_bytes().len() ==> #[trigger] value.spec_bytes()[i] != 0)
            ==> bytes@ == value.spec_bytes(),
{
    let source = value.as_bytes();
    let mut bytes: Vec<u8> = Vec::new();
    let mut i: usize = 0;
    while i < source.len()
        invariant
            i <= source@.len(),
            source@ == value.spec_bytes(),
            bytes@ == spec_without_nul(source@.take(i as int)),
        decreases source.len() - i,
    {
        assert(source@.take(i + 1).drop_last() =~= source@.take(i as int));
        if source[i] != 0 {
            bytes.push(source[i]);
        }
        i = i + 1;
    }
    assert(source@.take(i as int) =~= source@);
    proof {
        lemma_without_nul_facts(source@);
    }
    bytes
}

} // verus!

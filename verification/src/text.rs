//! Byte-level text scanning for the scene and material formats.
//!
//! A file is a sequence of lines separated by newline bytes, a terminated
//! line shedding one trailing carriage return; a line is a sequence of
//! tokens separated by runs of whitespace; a face element is a token whose
//! parts are separated by slashes. All of it is defined over byte sequences
//! and computed by scans proved against those definitions.

use vstd::prelude::*;

verus! {

/// Whitespace byte: space, tab, line feed, vertical tab, form feed,
/// carriage return.
pub open spec fn is_space(b: u8) -> bool {
    b == 32 || b == 9 || b == 10 || b == 11 || b == 12 || b == 13
}

/// Length of the leading run of bytes before the first newline (byte 10).
pub open spec fn line_len(s: Seq<u8>) -> nat
    decreases s.len(),
{
    if s.len() == 0 || s[0] == 10 {
        0
    } else {
        1 + line_len(s.drop_first())
    }
}

/// The leading line is no longer than the text.
pub proof fn lemma_line_len_le(s: Seq<u8>)
    ensures
        line_len(s) <= s.len(),
    decreases s.len(),
{
    if s.len() > 0 && s[0] != 10 {
        lemma_line_len_le(s.drop_first());
    }
}

/// Content of the leading line: the bytes before its newline, shedding one
/// trailing carriage return (byte 13) when the line was terminated by a
/// newline.
pub open spec fn line_content(s: Seq<u8>) -> Seq<u8> {
    let k = line_len(s) as int;
    let raw = s.take(k);
    if k < s.len() && raw.len() > 0 && raw.last() == 13 {
        raw.drop_last()
    } else {
        raw
    }
}

/// The lines of a file: separated by newline bytes, the final line's
/// terminator optional, a terminated line shedding one trailing carriage
/// return.
pub open spec fn spec_lines(s: Seq<u8>) -> Seq<Seq<u8>>
    decreases s.len(),
{
    if s.len() == 0 {
        seq![]
    } else {
        let k = line_len(s) as int;
        proof {
            lemma_line_len_le(s);
        }
        if k == s.len() {
            seq![line_content(s)]
        } else {
            seq![line_content(s)] + spec_lines(s.skip(k + 1))
        }
    }
}

/// Length of the leading run of non-whitespace bytes.
pub open spec fn token_len(s: Seq<u8>) -> nat
    decreases s.len(),
{
    if s.len() == 0 || is_space(s[0]) {
        0
    } else {
        1 + token_len(s.drop_first())
    }
}

/// The leading token is no longer than the text.
pub proof fn lemma_token_len_le(s: Seq<u8>)
    ensures
        token_len(s) <= s.len(),
    decreases s.len(),
{
    if s.len() > 0 && !is_space(s[0]) {
        lemma_token_len_le(s.drop_first());
    }
}

/// The whitespace-separated tokens of a line, in order, each nonempty.
pub open spec fn spec_tokens(s: Seq<u8>) -> Seq<Seq<u8>>
    decreases s.len(),
{
    if s.len() == 0 {
        seq![]
    } else if is_space(s[0]) {
        spec_tokens(s.drop_first())
    } else {
        let k = token_len(s) as int;
        proof {
            lemma_token_len_le(s);
        }
        seq![s.take(k)] + spec_tokens(s.skip(k))
    }
}

/// Length of the leading run of bytes before the first slash (byte 47).
pub open spec fn until_slash(s: Seq<u8>) -> nat
    decreases s.len(),
{
    if s.len() == 0 || s[0] == 47 {
        0
    } else {
        1 + until_slash(s.drop_first())
    }
}

/// The run before the first slash is no longer than the text.
pub proof fn lemma_until_slash_le(s: Seq<u8>)
    ensures
        until_slash(s) <= s.len(),
    decreases s.len(),
{
    if s.len() > 0 && s[0] != 47 {
        lemma_until_slash_le(s.drop_first());
    }
}

/// Length of the trailing run of bytes after the last slash (byte 47).
pub open spec fn after_last_slash(s: Seq<u8>) -> nat
    decreases s.len(),
{
    if s.len() == 0 || s.last() == 47 {
        0
    } else {
        1 + after_last_slash(s.drop_last())
    }
}

/// The run after the last slash is no longer than the text.
pub proof fn lemma_after_last_slash_le(s: Seq<u8>)
    ensures
        after_last_slash(s) <= s.len(),
    decreases s.len(),
{
    if s.len() > 0 && s.last() != 47 {
        lemma_after_last_slash_le(s.drop_last());
    }
}

/// Whitespace test on one byte.
pub fn is_space_byte(b: u8) -> (r: bool)
    ensures
        r == is_space(b),
{
    b == 32 || b == 9 || b == 10 || b == 11 || b == 12 || b == 13
}

/// Copy of the byte range `[a, b)`.
pub fn copy_range(s: &[u8], a: usize, b: usize) -> (v: Vec<u8>)
    requires
        a <= b <= s@.len(),
    ensures
        v@ == s@.subrange(a as int, b as int),
{
    let mut v: Vec<u8> = Vec::new();
    let mut j = a;
    while j < b
        invariant
            a <= j <= b <= s@.len(),
            v@ == s@.subrange(a as int, j as int),
        decreases b - j,
    {
        v.push(s[j]);
        proof {
            assert(v@ =~= s@.subrange(a as int, j + 1));
        }
        j = j + 1;
    }
    v
}

/// The two byte strings hold the same bytes.
pub fn bytes_eq(a: &[u8], b: &[u8]) -> (r: bool)
    ensures
        r == (a@ == b@),
{
    if a.len() != b.len() {
        return false;
    }
    let mut j: usize = 0;
    while j < a.len()
        invariant
            j <= a@.len(),
            a@.len() == b@.len(),
            forall|k: int| 0 <= k < j ==> a@[k] == b@[k],
        decreases a@.len() - j,
    {
        if a[j] != b[j] {
            return false;
        }
        j = j + 1;
    }
    proof {
        assert(a@ =~= b@);
    }
    true
}

/// Length of the line starting at `from`.
fn scan_line(s: &[u8], from: usize) -> (n: usize)
    requires
        from <= s@.len(),
    ensures
        n == line_len(s@.skip(from as int)),
        from + n <= s@.len(),
{
    let mut j = from;
    while j < s.len() && s[j] != 10
        invariant
            from <= j <= s@.len(),
            line_len(s@.skip(from as int)) == (j - from) + line_len(s@.skip(j as int)),
        decreases s@.len() - j,
    {
        proof {
            assert(s@.skip(j as int).drop_first() =~= s@.skip(j + 1));
            assert(s@.skip(j as int)[0] == s@[j as int]);
        }
        j = j + 1;
    }
    proof {
        if j < s.len() {
            assert(s@.skip(j as int)[0] == s@[j as int]);
        }
        assert(line_len(s@.skip(j as int)) == 0);
    }
    j - from
}

/// Length of the token starting at `from`.
fn scan_token(s: &[u8], from: usize) -> (n: usize)
    requires
        from <= s@.len(),
    ensures
        n == token_len(s@.skip(from as int)),
        from + n <= s@.len(),
{
    let mut j = from;
    while j < s.len() && !is_space_byte(s[j])
        invariant
            from <= j <= s@.len(),
            token_len(s@.skip(from as int)) == (j - from) + token_len(s@.skip(j as int)),
        decreases s@.len() - j,
    {
        proof {
            assert(s@.skip(j as int).drop_first() =~= s@.skip(j + 1));
            assert(s@.skip(j as int)[0] == s@[j as int]);
        }
        j = j + 1;
    }
    proof {
        if j < s.len() {
            assert(s@.skip(j as int)[0] == s@[j as int]);
        }
        assert(token_len(s@.skip(j as int)) == 0);
    }
    j - from
}

/// Length of the leading run before the first slash.
pub fn scan_until_slash(s: &[u8]) -> (n: usize)
    ensures
        n == until_slash(s@),
        n <= s@.len(),
{
    let mut j: usize = 0;
    proof {
        assert(s@.skip(0) =~= s@);
    }
    while j < s.len() && s[j] != 47
        invariant
            j <= s@.len(),
            until_slash(s@) == j + until_slash(s@.skip(j as int)),
        decreases s@.len() - j,
    {
        proof {
            assert(s@.skip(j as int).drop_first() =~= s@.skip(j + 1));
            assert(s@.skip(j as int)[0] == s@[j as int]);
        }
        j = j + 1;
    }
    proof {
        if j < s.len() {
            assert(s@.skip(j as int)[0] == s@[j as int]);
        }
        assert(until_slash(s@.skip(j as int)) == 0);
        assert(s@.skip(0) =~= s@);
    }
    j
}

/// Length of the trailing run after the last slash.
pub fn scan_after_last_slash(s: &[u8]) -> (n: usize)
    ensures
        n == after_last_slash(s@),
        n <= s@.len(),
{
    let mut j: usize = s.len();
    proof {
        assert(s@.take(s@.len() as int) =~= s@);
    }
    while j > 0 && s[j - 1] != 47
        invariant
            j <= s@.len(),
            after_last_slash(s@) == (s@.len() - j) + after_last_slash(s@.take(j as int)),
        decreases j,
    {
        proof {
            assert(s@.take(j as int).last() == s@[j - 1]);
            assert(s@.take(j as int).drop_last() =~= s@.take(j - 1));
        }
        j = j - 1;
    }
    proof {
        if j > 0 {
            assert(s@.take(j as int).last() == s@[j - 1]);
        }
        assert(after_last_slash(s@.take(j as int)) == 0);
    }
    s.len() - j
}

/// The lines of a file, scanned in order.
pub fn split_lines(content: &[u8]) -> (lines: Vec<Vec<u8>>)
    ensures
        lines.deep_view() == spec_lines(content@),
{
    let n = content.len();
    let mut lines: Vec<Vec<u8>> = Vec::new();
    let mut i: usize = 0;
    proof {
        assert(content@.skip(0) =~= content@);
        assert(lines.deep_view() =~= Seq::<Seq<u8>>::empty());
    }
    while i < n
        invariant
            i <= n,
            n == content@.len(),
            spec_lines(content@) == lines.deep_view() + spec_lines(content@.skip(i as int)),
        decreases n - i,
    {
        let ghost rest = content@.skip(i as int);
        let ghost old_dv = lines.deep_view();
        let k = scan_line(content, i);
        proof {
            assert(line_len(rest) == k) by {
                assert(rest =~= content@.skip(i as int));
            }
            assert(rest.take(k as int) =~= content@.subrange(i as int, (i + k) as int));
        }
        let terminated = i + k < n;
        let line = if terminated && k > 0 && content[i + k - 1] == 13 {
            proof {
                assert(rest.take(k as int).last() == content@[(i + k - 1) as int]);
                assert(rest.take(k as int).drop_last() =~= content@.subrange(
                    i as int,
                    (i + k - 1) as int,
                ));
            }
            copy_range(content, i, i + k - 1)
        } else {
            proof {
                if terminated && k > 0 {
                    assert(rest.take(k as int).last() == content@[(i + k - 1) as int]);
                }
            }
            copy_range(content, i, i + k)
        };
        proof {
            assert(line@ == line_content(rest));
        }
        lines.push(line);
        proof {
            assert(lines.deep_view() =~~= old_dv.push(line_content(rest)));
        }
        if terminated {
            proof {
                assert(rest.skip(k + 1) =~= content@.skip(i + k + 1));
                assert(spec_lines(rest) == seq![line_content(rest)] + spec_lines(
                    content@.skip(i + k + 1),
                ));
                assert(lines.deep_view() + spec_lines(content@.skip(i + k + 1)) =~= old_dv
                    + spec_lines(rest));
            }
            i = i + k + 1;
        } else {
            proof {
                assert(spec_lines(rest) == seq![line_content(rest)]);
                assert(content@.skip(n as int).len() == 0);
                assert(lines.deep_view() + spec_lines(content@.skip(n as int)) =~= old_dv
                    + spec_lines(rest));
            }
            i = n;
        }
    }
    proof {
        assert(spec_lines(content@.skip(n as int)).len() == 0);
        assert(lines.deep_view() =~= lines.deep_view() + spec_lines(content@.skip(n as int)));
    }
    lines
}

/// The whitespace-separated tokens of a line, scanned in order.
pub fn tokenize(line: &[u8]) -> (toks: Vec<Vec<u8>>)
    ensures
        toks.deep_view() == spec_tokens(line@),
{
    let n = line.len();
    let mut toks: Vec<Vec<u8>> = Vec::new();
    let mut i: usize = 0;
    proof {
        assert(line@.skip(0) =~= line@);
        assert(toks.deep_view() =~= Seq::<Seq<u8>>::empty());
    }
    while i < n
        invariant
            i <= n,
            n == line@.len(),
            spec_tokens(line@) == toks.deep_view() + spec_tokens(line@.skip(i as int)),
        decreases n - i,
    {
        let ghost rest = line@.skip(i as int);
        proof {
            assert(rest[0] == line@[i as int]);
            assert(rest.drop_first() =~= line@.skip(i + 1));
        }
        if is_space_byte(line[i]) {
            i = i + 1;
        } else {
            let ghost old_dv = toks.deep_view();
            let k = scan_token(line, i);
            proof {
                assert(token_len(rest) == k);
                assert(rest.take(k as int) =~= line@.subrange(i as int, (i + k) as int));
                assert(rest.skip(k as int) =~= line@.skip((i + k) as int));
                assert(spec_tokens(rest) == seq![rest.take(k as int)] + spec_tokens(
                    line@.skip((i + k) as int),
                ));
            }
            let tok = copy_range(line, i, i + k);
            toks.push(tok);
            proof {
                assert(toks.deep_view() =~~= old_dv.push(rest.take(k as int)));
                assert(toks.deep_view() + spec_tokens(line@.skip((i + k) as int)) =~= old_dv
                    + spec_tokens(rest));
                assert(k > 0);
            }
            i = i + k;
        }
    }
    proof {
        assert(spec_tokens(line@.skip(n as int)).len() == 0);
        assert(toks.deep_view() =~= toks.deep_view() + spec_tokens(line@.skip(n as int)));
    }
    toks
}

} // verus!

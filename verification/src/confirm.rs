use vstd::prelude::*;
use vstd::string::StrSliceExecFns;

verus! {

/// Whitespace as `str::trim` removes it around the confirmation token:
/// the characters with the Unicode `White_Space` property.
pub open spec fn is_whitespace_char(c: char) -> bool {
    ||| c == '\u{0009}'
    ||| c == '\u{000A}'
    ||| c == '\u{000B}'
    ||| c == '\u{000C}'
    ||| c == '\u{000D}'
    ||| c == ' '
    ||| c == '\u{0085}'
    ||| c == '\u{00A0}'
    ||| c == '\u{1680}'
    ||| (0x2000 <= c as u32 && c as u32 <= 0x200A)
    ||| c == '\u{2028}'
    ||| c == '\u{2029}'
    ||| c == '\u{202F}'
    ||| c == '\u{205F}'
    ||| c == '\u{3000}'
}

/// The characters with their leading whitespace removed.
pub open spec fn trim_start(s: Seq<char>) -> Seq<char>
    decreases s.len(),
{
    if s.len() > 0 && is_whitespace_char(s[0]) {
        trim_start(s.drop_first())
    } else {
        s
    }
}

/// The characters with their trailing whitespace removed.
pub open spec fn trim_end(s: Seq<char>) -> Seq<char>
    decreases s.len(),
{
    if s.len() > 0 && is_whitespace_char(s.last()) {
        trim_end(s.drop_last())
    } else {
        s
    }
}

/// The characters with their surrounding whitespace removed.
pub open spec fn trimmed(s: Seq<char>) -> Seq<char> {
    trim_end(trim_start(s))
}

/// Whether a line of input counts as consent: exactly the token `y` or `Y`
/// once surrounding whitespace is dropped. Anything else declines.
pub open spec fn affirmative(s: Seq<char>) -> bool {
    trimmed(s) == seq!['y'] || trimmed(s) == seq!['Y']
}

proof fn lemma_trim_start_step(s: Seq<char>, i: int)
    requires
        0 <= i < s.len(),
        is_whitespace_char(s[i]),
        trim_start(s) == trim_start(s.skip(i)),
    ensures
        trim_start(s) == trim_start(s.skip(i + 1)),
{
    assert(s.skip(i)[0] == s[i]);
    assert(s.skip(i).drop_first() =~= s.skip(i + 1));
}

proof fn lemma_trim_start_done(s: Seq<char>, i: int)
    requires
        0 <= i <= s.len(),
        trim_start(s) == trim_start(s.skip(i)),
        i == s.len() || !is_whitespace_char(s[i]),
    ensures
        trim_start(s) == s.skip(i),
{
    if i < s.len() {
        assert(s.skip(i)[0] == s[i]);
    }
}

proof fn lemma_trim_end_step(s: Seq<char>, a: int, e: int)
    requires
        0 <= a < e <= s.len(),
        is_whitespace_char(s[e - 1]),
    ensures
        trim_end(s.subrange(a, e)) == trim_end(s.subrange(a, e - 1)),
{
    assert(s.subrange(a, e).last() == s[e - 1]);
    assert(s.subrange(a, e).drop_last() =~= s.subrange(a, e - 1));
}

proof fn lemma_trim_end_done(s: Seq<char>, a: int, e: int)
    requires
        0 <= a <= e <= s.len(),
        e == a || !is_whitespace_char(s[e - 1]),
    ensures
        trim_end(s.subrange(a, e)) == s.subrange(a, e),
{
    if a < e {
        assert(s.subrange(a, e).last() == s[e - 1]);
    }
}

fn is_whitespace_exec(c: char) -> (r: bool)
    ensures
        r == is_whitespace_char(c),
{
    c == '\u{0009}' || c == '\u{000A}' || c == '\u{000B}' || c == '\u{000C}'
        || c == '\u{000D}' || c == ' ' || c == '\u{0085}' || c == '\u{00A0}'
        || c == '\u{1680}' || (0x2000 <= c as u32 && c as u32 <= 0x200A)
        || c == '\u{2028}' || c == '\u{2029}' || c == '\u{202F}' || c == '\u{205F}'
        || c == '\u{3000}'
}

/// Decides the confirmation gate: true exactly when the line of input,
/// with surrounding whitespace removed, is the single character `y` or
/// `Y`. Every other line, the empty one included, declines.
pub fn is_affirmative(input: &str) -> (r: bool)
    ensures
        r == affirmative(input@),
{
    let n: usize = input.unicode_len();
    let mut start: usize = 0;
    proof {
        assert(input@.skip(0) =~= input@);
    }
    while start < n && is_whitespace_exec(input.get_char(start))
        invariant
            n == input@.len(),
            start <= n,
            trim_start(input@) == trim_start(input@.skip(start as int)),
        decreases n - start,
    {
        proof {
            lemma_trim_start_step(input@, start as int);
        }
        start = start + 1;
    }
    proof {
        lemma_trim_start_done(input@, start as int);
        assert(input@.skip(start as int) =~= input@.subrange(start as int, n as int));
    }
    let mut end: usize = n;
    while end > start && is_whitespace_exec(input.get_char(end - 1))
        invariant
            n == input@.len(),
            start <= end <= n,
            trim_start(input@) == input@.skip(start as int),
            trim_end(input@.skip(start as int)) == trim_end(
                input@.subrange(start as int, end as int),
            ),
        decreases end,
    {
        proof {
            lemma_trim_end_step(input@, start as int, end as int);
        }
        end = end - 1;
    }
    proof {
        lemma_trim_end_done(input@, start as int, end as int);
        assert(trimmed(input@) == input@.subrange(start as int, end as int));
    }
    if end - start == 1 {
        let c: char = input.get_char(start);
        proof {
            assert(trimmed(input@)[0] == input@[start as int]);
            if c == 'y' {
                assert(trimmed(input@) =~= seq!['y']);
            }
            if c == 'Y' {
                assert(trimmed(input@) =~= seq!['Y']);
            }
        }
        c == 'y' || c == 'Y'
    } else {
        proof {
            assert(seq!['y'].len() == 1);
            assert(seq!['Y'].len() == 1);
        }
        false
    }
}

} // verus!

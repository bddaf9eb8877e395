use vstd::prelude::*;

verus! {

/// The Unicode White_Space property, as std documents `char::is_whitespace`.
pub open spec fn is_wspace(c: char) -> bool {
    let u = c as u32;
    u == 0x20 || (0x09 <= u && u <= 0x0D) || u == 0x85 || u == 0xA0 || u == 0x1680 || (0x2000 <= u
        && u <= 0x200A) || u == 0x2028 || u == 0x2029 || u == 0x202F || u == 0x205F || u == 0x3000
}

pub fn is_wspace_exec(c: char) -> (r: bool)
    ensures
        r == is_wspace(c),
{
    let u = c as u32;
    u == 0x20 || (0x09 <= u && u <= 0x0D) || u == 0x85 || u == 0xA0 || u == 0x1680 || (0x2000 <= u
        && u <= 0x200A) || u == 0x2028 || u == 0x2029 || u == 0x202F || u == 0x205F || u == 0x3000
}

pub open spec fn trim_start_spec(s: Seq<char>) -> Seq<char>
    decreases s.len(),
{
    if s.len() == 0 {
        s
    } else if is_wspace(s[0]) {
        trim_start_spec(s.drop_first())
    } else {
        s
    }
}

pub open spec fn trim_end_spec(s: Seq<char>) -> Seq<char>
    decreases s.len(),
{
    if s.len() == 0 {
        s
    } else if is_wspace(s.last()) {
        trim_end_spec(s.drop_last())
    } else {
        s
    }
}

/// What `str::trim` leaves: the view with leading and trailing whitespace
/// removed.
pub open spec fn trim_spec(s: Seq<char>) -> Seq<char> {
    trim_end_spec(trim_start_spec(s))
}

proof fn lemma_trim_start_split(s: Seq<char>, a: int)
    requires
        0 <= a <= s.len(),
        forall|i: int| 0 <= i < a ==> is_wspace(s[i]),
        a < s.len() ==> !is_wspace(s[a]),
    ensures
        trim_start_spec(s) == s.subrange(a, s.len() as int),
    decreases a,
{
    if a == 0 {
        assert(trim_start_spec(s) =~= s.subrange(0, s.len() as int));
    } else {
        let rest = s.drop_first();
        assert(forall|i: int| 0 <= i < a - 1 ==> rest[i] == s[i + 1]);
        assert(a - 1 < rest.len() ==> rest[a - 1] == s[a]);
        lemma_trim_start_split(rest, a - 1);
        assert(trim_start_spec(s) =~= s.subrange(a, s.len() as int));
    }
}

proof fn lemma_trim_end_split(s: Seq<char>, b: int)
    requires
        0 <= b <= s.len(),
        forall|i: int| b <= i < s.len() ==> is_wspace(s[i]),
        b > 0 ==> !is_wspace(s[b - 1]),
    ensures
        trim_end_spec(s) == s.subrange(0, b),
    decreases s.len() - b,
{
    if b == s.len() {
        assert(trim_end_spec(s) =~= s.subrange(0, b));
    } else {
        let pre = s.drop_last();
        assert(is_wspace(s.last()));
        assert(forall|i: int| 0 <= i < pre.len() ==> pre[i] == s[i]);
        lemma_trim_end_split(pre, b);
        assert(trim_end_spec(s) =~= s.subrange(0, b));
    }
}

/// `str::trim`, written out: scan past whitespace from both ends.
pub fn trim_str<'a>(s: &'a str) -> (r: &'a str)
    ensures
        r@ == trim_spec(s@),
{
    let n: usize = s.unicode_len();
    let mut a: usize = 0;
    while a < n && is_wspace_exec(s.get_char(a))
        invariant
            a <= n == s@.len(),
            forall|i: int| 0 <= i < a ==> is_wspace(s@[i]),
        decreases n - a,
    {
        a = a + 1;
    }
    let mut b: usize = n;
    while b > a && is_wspace_exec(s.get_char(b - 1))
        invariant
            a <= b <= n == s@.len(),
            forall|i: int| b <= i < n ==> is_wspace(s@[i]),
        decreases b,
    {
        b = b - 1;
    }
    proof {
        lemma_trim_start_split(s@, a as int);
        let t1 = s@.subrange(a as int, s@.len() as int);
        assert(forall|i: int| b - a <= i < t1.len() ==> t1[i] == s@[i + a]);
        assert(b - a > 0 ==> t1[b - a - 1] == s@[b - 1]);
        lemma_trim_end_split(t1, b - a);
        assert(t1.subrange(0, b - a) =~= s@.subrange(a as int, b as int));
    }
    s.substring_char(a, b)
}

pub open spec fn trim_end_char_spec(s: Seq<char>, c: char) -> Seq<char>
    decreases s.len(),
{
    if s.len() == 0 {
        s
    } else if s.last() == c {
        trim_end_char_spec(s.drop_last(), c)
    } else {
        s
    }
}

proof fn lemma_trim_end_char_split(s: Seq<char>, c: char, b: int)
    requires
        0 <= b <= s.len(),
        forall|i: int| b <= i < s.len() ==> s[i] == c,
        b > 0 ==> s[b - 1] != c,
    ensures
        trim_end_char_spec(s, c) == s.subrange(0, b),
    decreases s.len() - b,
{
    if b == s.len() {
        assert(trim_end_char_spec(s, c) =~= s.subrange(0, b));
    } else {
        let pre = s.drop_last();
        assert(forall|i: int| 0 <= i < pre.len() ==> pre[i] == s[i]);
        lemma_trim_end_char_split(pre, c, b);
        assert(trim_end_char_spec(s, c) =~= s.subrange(0, b));
    }
}

/// `str::trim_end_matches` with a single-character pattern, written out.
pub fn trim_end_char<'a>(s: &'a str, c: char) -> (r: &'a str)
    ensures
        r@ == trim_end_char_spec(s@, c),
{
    let n: usize = s.unicode_len();
    let mut b: usize = n;
    while b > 0 && s.get_char(b - 1) == c
        invariant
            b <= n == s@.len(),
            forall|i: int| b <= i < n ==> s@[i] == c,
        decreases b,
    {
        b = b - 1;
    }
    proof {
        lemma_trim_end_char_split(s@, c, b as int);
    }
    s.substring_char(0, b)
}

/// What truncation for display leaves: the input itself where it fits,
/// else its first `max` characters with an ellipsis appended.
pub open spec fn truncate_spec(s: Seq<char>, max: int) -> Seq<char> {
    if s.len() <= max {
        s
    } else {
        s.subrange(0, max) + "..."@
    }
}

pub fn truncate_message(input: &str, max_chars: usize) -> (r: String)
    ensures
        r@ == truncate_spec(input@, max_chars as int),
{
    let n: usize = input.unicode_len();
    if n <= max_chars {
        input.to_owned()
    } else {
        let head = input.substring_char(0, max_chars);
        let mut out = String::from_str(head);
        out.append("...");
        out
    }
}

/// The replacement each character gets in an XML text node.
pub open spec fn xml_escape_char(c: char) -> Seq<char> {
    if c == '&' {
        "&amp;"@
    } else if c == '<' {
        "&lt;"@
    } else if c == '>' {
        "&gt;"@
    } else if c == '"' {
        "&quot;"@
    } else if c == '\'' {
        "&apos;"@
    } else {
        seq![c]
    }
}

pub open spec fn xml_escape_spec(s: Seq<char>) -> Seq<char>
    decreases s.len(),
{
    if s.len() == 0 {
        Seq::<char>::empty()
    } else {
        xml_escape_spec(s.drop_last()) + xml_escape_char(s.last())
    }
}

pub fn xml_escape(input: &str) -> (r: String)
    ensures
        r@ == xml_escape_spec(input@),
{
    let n: usize = input.unicode_len();
    let mut out = String::new();
    let mut i: usize = 0;
    while i < n
        invariant
            i <= n == input@.len(),
            out@ == xml_escape_spec(input@.subrange(0, i as int)),
        decreases n - i,
    {
        let c = input.get_char(i);
        if c == '&' {
            out.append("&amp;");
        } else if c == '<' {
            out.append("&lt;");
        } else if c == '>' {
            out.append("&gt;");
        } else if c == '"' {
            out.append("&quot;");
        } else if c == '\'' {
            out.append("&apos;");
        } else {
            let piece = input.substring_char(i, i + 1);
            out.append(piece);
            proof {
                assert(piece@ =~= seq![c]);
            }
        }
        proof {
            let next = input@.subrange(0, (i + 1) as int);
            assert(next.drop_last() =~= input@.subrange(0, i as int));
            assert(next.last() == input@[i as int]);
            assert(out@ == xml_escape_spec(next));
        }
        i = i + 1;
    }
    proof {
        assert(input@.subrange(0, n as int) =~= input@);
    }
    out
}

/// ASCII lowercase folding on a code point, as `char::to_ascii_lowercase`
/// documents it: only the letters A to Z move.
pub open spec fn lower_u32(u: u32) -> u32 {
    if 65 <= u && u <= 90 {
        (u + 32) as u32
    } else {
        u
    }
}

/// Case-insensitive (ASCII) character equality.
pub open spec fn chars_ieq(a: char, b: char) -> bool {
    lower_u32(a as u32) == lower_u32(b as u32)
}

pub fn chars_ieq_exec(a: char, b: char) -> (r: bool)
    ensures
        r == chars_ieq(a, b),
{
    let ua: u32 = a as u32;
    let ub: u32 = b as u32;
    let la: u32 = if 65 <= ua && ua <= 90 {
        ua + 32
    } else {
        ua
    };
    let lb: u32 = if 65 <= ub && ub <= 90 {
        ub + 32
    } else {
        ub
    };
    la == lb
}

/// `s` begins with `p`, comparing ASCII case-insensitively.
pub open spec fn starts_with_ci(s: Seq<char>, p: Seq<char>) -> bool {
    p.len() <= s.len() && forall|i: int| 0 <= i < p.len() ==> chars_ieq(s[i], p[i])
}

pub fn starts_with_ci_exec(s: &str, p: &str) -> (r: bool)
    ensures
        r == starts_with_ci(s@, p@),
{
    let ns: usize = s.unicode_len();
    let np: usize = p.unicode_len();
    if np > ns {
        return false;
    }
    let mut i: usize = 0;
    while i < np
        invariant
            i <= np == p@.len(),
            np <= ns == s@.len(),
            forall|k: int| 0 <= k < i ==> chars_ieq(s@[k], p@[k]),
        decreases np - i,
    {
        if !chars_ieq_exec(s.get_char(i), p.get_char(i)) {
            return false;
        }
        i = i + 1;
    }
    true
}

/// `s` begins with `p`, compared exactly.
pub open spec fn starts_with_spec(s: Seq<char>, p: Seq<char>) -> bool {
    p.len() <= s.len() && forall|i: int| 0 <= i < p.len() ==> s[i] == p[i]
}

pub fn starts_with_exec(s: &str, p: &str) -> (r: bool)
    ensures
        r == starts_with_spec(s@, p@),
{
    let ns: usize = s.unicode_len();
    let np: usize = p.unicode_len();
    if np > ns {
        return false;
    }
    let mut i: usize = 0;
    while i < np
        invariant
            i <= np == p@.len(),
            np <= ns == s@.len(),
            forall|k: int| 0 <= k < i ==> s@[k] == p@[k],
        decreases np - i,
    {
        if s.get_char(i) != p.get_char(i) {
            return false;
        }
        i = i + 1;
    }
    true
}

/// `s` ends with `p`, comparing ASCII case-insensitively.
pub open spec fn ends_with_ci(s: Seq<char>, p: Seq<char>) -> bool {
    p.len() <= s.len() && forall|i: int|
        0 <= i < p.len() ==> chars_ieq(s[s.len() - p.len() + i], p[i])
}

pub fn ends_with_ci_exec(s: &str, p: &str) -> (r: bool)
    ensures
        r == ends_with_ci(s@, p@),
{
    let ns: usize = s.unicode_len();
    let np: usize = p.unicode_len();
    if np > ns {
        return false;
    }
    let off: usize = ns - np;
    let mut i: usize = 0;
    while i < np
        invariant
            i <= np == p@.len(),
            np <= ns == s@.len(),
            off == ns - np,
            forall|k: int| 0 <= k < i ==> chars_ieq(s@[off + k], p@[k]),
        decreases np - i,
    {
        if !chars_ieq_exec(s.get_char(off + i), p.get_char(i)) {
            return false;
        }
        i = i + 1;
    }
    true
}

/// The whole of `s` equals `p`, comparing ASCII case-insensitively.
pub open spec fn eq_ci(s: Seq<char>, p: Seq<char>) -> bool {
    s.len() == p.len() && forall|i: int| 0 <= i < p.len() ==> chars_ieq(s[i], p[i])
}

pub fn eq_ci_exec(s: &str, p: &str) -> (r: bool)
    ensures
        r == eq_ci(s@, p@),
{
    if s.unicode_len() != p.unicode_len() {
        return false;
    }
    starts_with_ci_exec(s, p)
}

/// `p` occurs at offset `j` of `s`, comparing ASCII case-insensitively.
pub open spec fn matches_at_ci(s: Seq<char>, p: Seq<char>, j: int) -> bool {
    forall|i: int| 0 <= i < p.len() ==> chars_ieq(s[j + i], p[i])
}

/// `p` occurs somewhere inside `s`, comparing ASCII case-insensitively.
pub open spec fn contains_ci(s: Seq<char>, p: Seq<char>) -> bool {
    exists|j: int| 0 <= j <= s.len() - p.len() && #[trigger] matches_at_ci(s, p, j)
}

pub fn contains_ci_exec(s: &str, p: &str) -> (r: bool)
    ensures
        r == contains_ci(s@, p@),
{
    let ns: usize = s.unicode_len();
    let np: usize = p.unicode_len();
    if np > ns {
        return false;
    }
    let mut j: usize = 0;
    while j <= ns - np
        invariant
            np <= ns == s@.len(),
            np == p@.len(),
            j <= ns - np + 1,
            forall|j0: int| 0 <= j0 < j ==> !matches_at_ci(s@, p@, j0),
        decreases ns - np + 1 - j,
    {
        let mut i: usize = 0;
        let mut all: bool = true;
        while i < np
            invariant
                i <= np == p@.len(),
                np <= ns == s@.len(),
                j <= ns - np,
                all <==> (forall|k: int| 0 <= k < i ==> chars_ieq(s@[j + k], p@[k])),
            decreases np - i,
        {
            if !chars_ieq_exec(s.get_char(j + i), p.get_char(i)) {
                all = false;
            }
            i = i + 1;
        }
        if all {
            proof {
                assert(matches_at_ci(s@, p@, j as int));
            }
            return true;
        }
        j = j + 1;
    }
    false
}

/// Exact string equality, character by character.
pub fn str_eq_exec(a: &str, b: &str) -> (r: bool)
    ensures
        r == (a@ == b@),
{
    let na: usize = a.unicode_len();
    let nb: usize = b.unicode_len();
    if na != nb {
        return false;
    }
    let mut i: usize = 0;
    while i < na
        invariant
            i <= na == a@.len(),
            na == nb == b@.len(),
            forall|k: int| 0 <= k < i ==> a@[k] == b@[k],
        decreases na - i,
    {
        if a.get_char(i) != b.get_char(i) {
            return false;
        }
        i = i + 1;
    }
    proof {
        assert(a@ =~= b@);
    }
    true
}

} // verus!

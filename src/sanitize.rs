use vstd::prelude::*;
use crate::text::{
    chars_of, contains, find, matches_at, replace_all, replace_exec, replace_from, string_of,
};

verus! {

/// Index of the first character at or after `j` that is not a space.
pub open spec fn spaces_end(s: Seq<char>, j: int) -> int
    decreases s.len() - j,
{
    if 0 <= j < s.len() && s[j] == ' ' {
        spaces_end(s, j + 1)
    } else {
        j
    }
}

/// Length of the line-break tag that starts at `i` (`<br`, any spaces, an
/// optional `/`, then `>`), or 0 where none starts there.
pub open spec fn break_len_at(s: Seq<char>, i: int) -> int {
    if 0 <= i && i + 3 <= s.len() && s[i] == '<' && s[i + 1] == 'b' && s[i + 2] == 'r' {
        let e = spaces_end(s, i + 3);
        if e < s.len() && s[e] == '>' {
            e + 1 - i
        } else if e + 1 < s.len() && s[e] == '/' && s[e + 1] == '>' {
            e + 2 - i
        } else {
            0
        }
    } else {
        0
    }
}

/// The text from `i` on, each line-break tag replaced by a line feed.
pub open spec fn breaks_from(s: Seq<char>, i: int) -> Seq<char>
    decreases s.len() - i,
{
    if i < 0 || i >= s.len() {
        Seq::empty()
    } else if break_len_at(s, i) > 0 {
        seq!['\n'] + breaks_from(s, i + break_len_at(s, i))
    } else {
        seq![s[i]] + breaks_from(s, i + 1)
    }
}

pub open spec fn replace_breaks(s: Seq<char>) -> Seq<char> {
    breaks_from(s, 0)
}

/// Index of the first `>` at or after `j` with no line feed before it, or -1.
pub open spec fn tag_close(s: Seq<char>, j: int) -> int
    decreases s.len() - j,
{
    if j < 0 || j >= s.len() {
        -1
    } else if s[j] == '>' {
        j
    } else if s[j] == '\n' {
        -1
    } else {
        tag_close(s, j + 1)
    }
}

/// Length of the shortest tag `<...>` on one line that starts at `i`, or 0.
pub open spec fn tag_len_at(s: Seq<char>, i: int) -> int {
    if 0 <= i < s.len() && s[i] == '<' && 0 <= tag_close(s, i + 1) < s.len() {
        tag_close(s, i + 1) + 1 - i
    } else {
        0
    }
}

/// The text from `i` on with every tag removed, scanning from the left.
pub open spec fn strip_from(s: Seq<char>, i: int) -> Seq<char>
    decreases s.len() - i,
{
    if i < 0 || i >= s.len() {
        Seq::empty()
    } else if tag_len_at(s, i) > 0 {
        strip_from(s, i + tag_len_at(s, i))
    } else {
        seq![s[i]] + strip_from(s, i + 1)
    }
}

pub open spec fn strip_tags(s: Seq<char>) -> Seq<char> {
    strip_from(s, 0)
}

pub open spec fn ent_lt() -> Seq<char> {
    seq!['&', 'l', 't', ';']
}

pub open spec fn ent_gt() -> Seq<char> {
    seq!['&', 'g', 't', ';']
}

pub open spec fn ent_amp() -> Seq<char> {
    seq!['&', 'a', 'm', 'p', ';']
}

pub open spec fn ent_apos() -> Seq<char> {
    seq!['&', 'a', 'p', 'o', 's', ';']
}

pub open spec fn ent_quot() -> Seq<char> {
    seq!['&', 'q', 'u', 'o', 't', ';']
}

/// The five named entities decoded, one after the other, in this order.
pub open spec fn decode_entities(s: Seq<char>) -> Seq<char> {
    let a = replace_all(s, ent_lt(), seq!['<']);
    let b = replace_all(a, ent_gt(), seq!['>']);
    let c = replace_all(b, ent_amp(), seq!['&']);
    let d = replace_all(c, ent_apos(), seq!['\'']);
    replace_all(d, ent_quot(), seq!['"'])
}

pub open spec fn directlua() -> Seq<char> {
    seq!['\\', 'd', 'i', 'r', 'e', 'c', 't', 'l', 'u', 'a']
}

pub open spec fn usepackage() -> Seq<char> {
    seq!['\\', 'u', 's', 'e', 'p', 'a', 'c', 'k', 'a', 'g', 'e']
}

pub open spec fn end_document() -> Seq<char> {
    seq!['\\', 'e', 'n', 'd', '{', 'd', 'o', 'c', 'u', 'm', 'e', 'n', 't', '}']
}

/// The text holds a construct that runs code, loads a package or ends the document.
pub open spec fn forbidden(s: Seq<char>) -> bool {
    contains(s, directlua()) || contains(s, usepackage()) || contains(s, end_document())
}

/// Unicode White_Space, the characters that `str::trim` removes.
pub open spec fn is_ws(c: char) -> bool {
    let u = c as u32;
    (0x09 <= u && u <= 0x0D) || u == 0x20 || u == 0x85 || u == 0xA0 || u == 0x1680 || (0x2000
        <= u && u <= 0x200A) || u == 0x2028 || u == 0x2029 || u == 0x202F || u == 0x205F || u
        == 0x3000
}

/// Index of the first non-whitespace character at or after `i`.
pub open spec fn lead(s: Seq<char>, i: int) -> int
    decreases s.len() - i,
{
    if 0 <= i < s.len() && is_ws(s[i]) {
        lead(s, i + 1)
    } else {
        i
    }
}

/// One past the last non-whitespace character before `j`, but not below `lo`.
pub open spec fn trail(s: Seq<char>, lo: int, j: int) -> int
    decreases j - lo,
{
    if lo < j && j <= s.len() && is_ws(s[j - 1]) {
        trail(s, lo, j - 1)
    } else {
        j
    }
}

/// `s` without leading and trailing whitespace.
pub open spec fn trimmed(s: Seq<char>) -> Seq<char> {
    let lo = lead(s, 0);
    s.subrange(lo, trail(s, lo, s.len() as int))
}

/// Line breaks made line feeds, tags stripped, then entities decoded.
pub open spec fn cleaned(s: Seq<char>) -> Seq<char> {
    decode_entities(strip_tags(replace_breaks(s)))
}

/// The typesetting source that `raw` yields, or none where it is refused.
pub open spec fn sanitized(raw: Seq<char>) -> Option<Seq<char>> {
    if forbidden(cleaned(raw)) {
        None
    } else {
        Some(trimmed(cleaned(raw)))
    }
}

fn spaces_end_exec(s: &Vec<char>, j: usize) -> (r: usize)
    requires
        j <= s.len(),
    ensures
        r == spaces_end(s@, j as int),
        j <= r <= s.len(),
{
    let mut k = j;
    while k < s.len() && s[k] == ' '
        invariant
            j <= k <= s.len(),
            spaces_end(s@, k as int) == spaces_end(s@, j as int),
        decreases s.len() - k,
    {
        k += 1;
    }
    k
}

fn break_len_exec(s: &Vec<char>, i: usize) -> (r: usize)
    requires
        i < s.len(),
    ensures
        r == break_len_at(s@, i as int),
        i + r <= s.len(),
{
    if s.len() - i >= 3 && s[i] == '<' && s[i + 1] == 'b' && s[i + 2] == 'r' {
        let e = spaces_end_exec(s, i + 3);
        if e < s.len() && s[e] == '>' {
            e + 1 - i
        } else if s.len() - e > 1 && s[e] == '/' && s[e + 1] == '>' {
            e + 2 - i
        } else {
            0
        }
    } else {
        0
    }
}

/// Each line-break tag replaced by a line feed.
pub fn replace_breaks_exec(s: &Vec<char>) -> (r: Vec<char>)
    ensures
        r@ == replace_breaks(s@),
{
    let mut out: Vec<char> = Vec::new();
    let mut i: usize = 0;
    while i < s.len()
        invariant
            i <= s.len(),
            out@ + breaks_from(s@, i as int) == replace_breaks(s@),
        decreases s.len() - i,
    {
        let ghost rest = breaks_from(s@, i as int);
        let ghost before = out@;
        let m = break_len_exec(s, i);
        if m > 0 {
            out.push('\n');
            i = i + m;
        } else {
            out.push(s[i]);
            i += 1;
        }
        assert(out@ + breaks_from(s@, i as int) =~= before + rest);
    }
    assert(out@ + breaks_from(s@, i as int) =~= out@);
    out
}

fn tag_close_exec(s: &Vec<char>, j: usize) -> (r: Option<usize>)
    requires
        j <= s.len(),
    ensures
        match r {
            Some(k) => k == tag_close(s@, j as int) && j <= k < s.len(),
            None => tag_close(s@, j as int) == -1,
        },
{
    let mut k = j;
    while k < s.len()
        invariant
            j <= k <= s.len(),
            tag_close(s@, k as int) == tag_close(s@, j as int),
        decreases s.len() - k,
    {
        if s[k] == '>' {
            return Some(k);
        }
        if s[k] == '\n' {
            return None;
        }
        k += 1;
    }
    None
}

fn tag_len_exec(s: &Vec<char>, i: usize) -> (r: usize)
    requires
        i < s.len(),
    ensures
        r == tag_len_at(s@, i as int),
        i + r <= s.len(),
{
    if s[i] == '<' {
        match tag_close_exec(s, i + 1) {
            Some(k) => k + 1 - i,
            None => 0,
        }
    } else {
        0
    }
}

/// Every tag removed.
pub fn strip_tags_exec(s: &Vec<char>) -> (r: Vec<char>)
    ensures
        r@ == strip_tags(s@),
{
    let mut out: Vec<char> = Vec::new();
    let mut i: usize = 0;
    while i < s.len()
        invariant
            i <= s.len(),
            out@ + strip_from(s@, i as int) == strip_tags(s@),
        decreases s.len() - i,
    {
        let ghost rest = strip_from(s@, i as int);
        let ghost before = out@;
        let m = tag_len_exec(s, i);
        if m > 0 {
            i = i + m;
        } else {
            out.push(s[i]);
            i += 1;
        }
        assert(out@ + strip_from(s@, i as int) =~= before + rest);
    }
    assert(out@ + strip_from(s@, i as int) =~= out@);
    out
}

/// The five named entities decoded.
pub fn decode_entities_exec(s: &Vec<char>) -> (r: Vec<char>)
    ensures
        r@ == decode_entities(s@),
{
    let lt = vec!['&', 'l', 't', ';'];
    let gt = vec!['&', 'g', 't', ';'];
    let amp = vec!['&', 'a', 'm', 'p', ';'];
    let apos = vec!['&', 'a', 'p', 'o', 's', ';'];
    let quot = vec!['&', 'q', 'u', 'o', 't', ';'];
    assert(lt@ =~= ent_lt());
    assert(gt@ =~= ent_gt());
    assert(amp@ =~= ent_amp());
    assert(apos@ =~= ent_apos());
    assert(quot@ =~= ent_quot());
    let (lt_c, gt_c, amp_c) = (vec!['<'], vec!['>'], vec!['&']);
    let (apos_c, quot_c) = (vec!['\''], vec!['"']);
    assert(lt_c@ =~= seq!['<'] && gt_c@ =~= seq!['>'] && amp_c@ =~= seq!['&']);
    assert(apos_c@ =~= seq!['\''] && quot_c@ =~= seq!['"']);
    let a = replace_exec(s, &lt, &lt_c);
    let b = replace_exec(&a, &gt, &gt_c);
    let c = replace_exec(&b, &amp, &amp_c);
    let d = replace_exec(&c, &apos, &apos_c);
    replace_exec(&d, &quot, &quot_c)
}

/// Whether the text holds a construct that runs code, loads a package or ends the document.
pub fn is_forbidden(s: &Vec<char>) -> (r: bool)
    ensures
        r == forbidden(s@),
{
    let lua = vec!['\\', 'd', 'i', 'r', 'e', 'c', 't', 'l', 'u', 'a'];
    let pkg = vec!['\\', 'u', 's', 'e', 'p', 'a', 'c', 'k', 'a', 'g', 'e'];
    let end = vec!['\\', 'e', 'n', 'd', '{', 'd', 'o', 'c', 'u', 'm', 'e', 'n', 't', '}'];
    assert(lua@ =~= directlua());
    assert(pkg@ =~= usepackage());
    assert(end@ =~= end_document());
    let a = find(s, &lua).is_some();
    let b = find(s, &pkg).is_some();
    let c = find(s, &end).is_some();
    a || b || c
}

/// Whether `c` is Unicode White_Space.
pub fn is_ws_exec(c: char) -> (r: bool)
    ensures
        r == is_ws(c),
{
    let u = c as u32;
    (0x09 <= u && u <= 0x0D) || u == 0x20 || u == 0x85 || u == 0xA0 || u == 0x1680 || (0x2000
        <= u && u <= 0x200A) || u == 0x2028 || u == 0x2029 || u == 0x202F || u == 0x205F || u
        == 0x3000
}

/// The text without leading and trailing whitespace.
pub fn trim_exec(s: &Vec<char>) -> (r: Vec<char>)
    ensures
        r@ == trimmed(s@),
{
    let mut lo: usize = 0;
    while lo < s.len() && is_ws_exec(s[lo])
        invariant
            lo <= s.len(),
            lead(s@, lo as int) == lead(s@, 0),
        decreases s.len() - lo,
    {
        lo += 1;
    }
    let mut hi: usize = s.len();
    while lo < hi && is_ws_exec(s[hi - 1])
        invariant
            lo <= hi <= s.len(),
            lo == lead(s@, 0),
            trail(s@, lo as int, hi as int) == trail(s@, lo as int, s@.len() as int),
        decreases hi - lo,
    {
        hi -= 1;
    }
    let mut out: Vec<char> = Vec::new();
    let mut k: usize = lo;
    while k < hi
        invariant
            lo <= k <= hi,
            hi <= s.len(),
            out@ == s@.subrange(lo as int, k as int),
        decreases hi - k,
    {
        out.push(s[k]);
        k += 1;
        assert(out@ =~= s@.subrange(lo as int, k as int));
    }
    out
}

/// The typesetting source held in the raw text of a message: line-break tags
/// become line feeds, other tags are removed, the entities `&lt;` `&gt;`
/// `&amp;` `&apos;` `&quot;` are decoded, and the result is trimmed. Text that
/// holds `\directlua`, `\usepackage` or `\end{document}` once decoded is
/// refused.
pub fn sanitize(raw: &str) -> (r: Option<String>)
    ensures
        r is None <==> forbidden(cleaned(raw@)),
        r is None <==> sanitized(raw@) is None,
        r matches Some(t) ==> sanitized(raw@) == Some(t@) && t@ == trimmed(cleaned(raw@)),
{
    let chars = chars_of(raw);
    let a = replace_breaks_exec(&chars);
    let b = strip_tags_exec(&a);
    let c = decode_entities_exec(&b);
    if is_forbidden(&c) {
        return None;
    }
    let t = trim_exec(&c);
    Some(string_of(&t))
}

/// Sanitizing text that holds no markup and no entity (no `<` and no `&`)
/// gives text that a second sanitizing leaves as it is.
pub proof fn lemma_sanitize_idempotent(x: Seq<char>)
    requires
        forall|i: int| 0 <= i < x.len() ==> x[i] != '<' && x[i] != '&',
    ensures
        sanitized(x) matches Some(y) ==> sanitized(y) == Some(y),
{
    lemma_cleaned_plain(x);
    if !forbidden(x) {
        let lo = lead(x, 0);
        lemma_lead(x, 0);
        lemma_trail(x, lo, x.len() as int);
        let hi = trail(x, lo, x.len() as int);
        let y = trimmed(x);
        assert(y == x.subrange(lo, hi));
        assert forall|i: int| 0 <= i < y.len() implies y[i] != '<' && y[i] != '&' by {
            assert(y[i] == x[lo + i]);
        }
        lemma_cleaned_plain(y);
        lemma_contains_sub(x, lo, hi, directlua());
        lemma_contains_sub(x, lo, hi, usepackage());
        lemma_contains_sub(x, lo, hi, end_document());
        if y.len() > 0 {
            assert(y[0] == x[lo]);
            assert(lead(y, 0) == 0);
            assert(y[y.len() - 1] == x[hi - 1]);
            assert(trail(y, 0, y.len() as int) == y.len());
        }
        assert(trimmed(y) =~= y);
    }
}

proof fn lemma_cleaned_plain(x: Seq<char>)
    requires
        forall|i: int| 0 <= i < x.len() ==> x[i] != '<' && x[i] != '&',
    ensures
        cleaned(x) == x,
{
    lemma_breaks_plain(x, 0);
    assert(x.subrange(0, x.len() as int) =~= x);
    lemma_strip_plain(x, 0);
    lemma_replace_plain(x, 0, ent_lt(), seq!['<']);
    lemma_replace_plain(x, 0, ent_gt(), seq!['>']);
    lemma_replace_plain(x, 0, ent_amp(), seq!['&']);
    lemma_replace_plain(x, 0, ent_apos(), seq!['\'']);
    lemma_replace_plain(x, 0, ent_quot(), seq!['"']);
}

proof fn lemma_breaks_plain(s: Seq<char>, i: int)
    requires
        0 <= i <= s.len(),
        forall|k: int| 0 <= k < s.len() ==> s[k] != '<',
    ensures
        breaks_from(s, i) == s.subrange(i, s.len() as int),
    decreases s.len() - i,
{
    if i < s.len() {
        lemma_breaks_plain(s, i + 1);
        assert(seq![s[i]] + s.subrange(i + 1, s.len() as int) =~= s.subrange(i, s.len() as int));
    } else {
        assert(s.subrange(i, s.len() as int) =~= Seq::<char>::empty());
    }
}

proof fn lemma_strip_plain(s: Seq<char>, i: int)
    requires
        0 <= i <= s.len(),
        forall|k: int| 0 <= k < s.len() ==> s[k] != '<',
    ensures
        strip_from(s, i) == s.subrange(i, s.len() as int),
    decreases s.len() - i,
{
    if i < s.len() {
        lemma_strip_plain(s, i + 1);
        assert(seq![s[i]] + s.subrange(i + 1, s.len() as int) =~= s.subrange(i, s.len() as int));
    } else {
        assert(s.subrange(i, s.len() as int) =~= Seq::<char>::empty());
    }
}

proof fn lemma_replace_plain(s: Seq<char>, i: int, pat: Seq<char>, rep: Seq<char>)
    requires
        0 <= i <= s.len(),
        pat.len() > 0,
        pat[0] == '&',
        forall|k: int| 0 <= k < s.len() ==> s[k] != '&',
    ensures
        replace_from(s, i, pat, rep) == s.subrange(i, s.len() as int),
    decreases s.len() - i,
{
    if i < s.len() {
        if matches_at(s, i, pat) {
            assert(s.subrange(i, i + pat.len())[0] == s[i]);
        }
        lemma_replace_plain(s, i + 1, pat, rep);
        assert(seq![s[i]] + s.subrange(i + 1, s.len() as int) =~= s.subrange(i, s.len() as int));
    } else {
        assert(s.subrange(i, s.len() as int) =~= Seq::<char>::empty());
    }
}

proof fn lemma_contains_sub(x: Seq<char>, lo: int, hi: int, pat: Seq<char>)
    requires
        0 <= lo <= hi <= x.len(),
    ensures
        contains(x.subrange(lo, hi), pat) ==> contains(x, pat),
{
    if contains(x.subrange(lo, hi), pat) {
        let y = x.subrange(lo, hi);
        let i = choose|i: int| matches_at(y, i, pat);
        assert(x.subrange(lo + i, lo + i + pat.len()) =~= y.subrange(i, i + pat.len()));
        assert(matches_at(x, lo + i, pat));
    }
}

proof fn lemma_lead(s: Seq<char>, i: int)
    requires
        0 <= i <= s.len(),
    ensures
        i <= lead(s, i) <= s.len(),
        lead(s, i) < s.len() ==> !is_ws(s[lead(s, i)]),
    decreases s.len() - i,
{
    if i < s.len() && is_ws(s[i]) {
        lemma_lead(s, i + 1);
    }
}

proof fn lemma_trail(s: Seq<char>, lo: int, j: int)
    requires
        0 <= lo <= j <= s.len(),
    ensures
        lo <= trail(s, lo, j) <= j,
        trail(s, lo, j) > lo ==> !is_ws(s[trail(s, lo, j) - 1]),
    decreases j - lo,
{
    if lo < j && is_ws(s[j - 1]) {
        lemma_trail(s, lo, j - 1);
    }
}

} // verus!

//! Recovery of one fenced code block from free text.
use vstd::prelude::*;
use crate::error::extracted_from;

verus! {

/// The language tag of the code blocks that the backends ask for.
pub const CODE_LANGUAGE: &'static str = "rust";

/// The bare fence marker, three backticks.
pub open spec fn fence() -> Seq<char> {
    seq!['`', '`', '`']
}

/// The opening marker of a block in language `lang`: the fence, then the tag.
pub open spec fn opener(lang: Seq<char>) -> Seq<char> {
    fence() + lang
}

/// `pat` stands in `s` at index `i`.
pub open spec fn occurs_at(s: Seq<char>, pat: Seq<char>, i: int) -> bool {
    0 <= i && i + pat.len() <= s.len() && s.subrange(i, i + pat.len()) == pat
}

/// The first index at or after `i` where `pat` stands in `s`.
pub open spec fn find_from(s: Seq<char>, pat: Seq<char>, i: int) -> Option<int>
    decreases s.len() + 1 - i,
{
    if i < 0 || i + pat.len() > s.len() {
        None
    } else if s.subrange(i, i + pat.len()) == pat {
        Some(i)
    } else {
        find_from(s, pat, i + 1)
    }
}

/// The Unicode `White_Space` characters.
pub open spec fn is_white_space(c: char) -> bool {
    ('\u{9}' <= c && c <= '\u{d}') || c == ' ' || c == '\u{85}' || c == '\u{a0}'
        || c == '\u{1680}' || ('\u{2000}' <= c && c <= '\u{200a}') || c == '\u{2028}'
        || c == '\u{2029}' || c == '\u{202f}' || c == '\u{205f}' || c == '\u{3000}'
}

/// `s` without its leading white space.
pub open spec fn trim_front(s: Seq<char>) -> Seq<char>
    decreases s.len(),
{
    if s.len() > 0 && is_white_space(s[0]) {
        trim_front(s.drop_first())
    } else {
        s
    }
}

/// `s` without its trailing white space.
pub open spec fn trim_back(s: Seq<char>) -> Seq<char>
    decreases s.len(),
{
    if s.len() > 0 && is_white_space(s.last()) {
        trim_back(s.drop_last())
    } else {
        s
    }
}

/// `s` without leading and trailing white space.
pub open spec fn trimmed(s: Seq<char>) -> Seq<char> {
    trim_back(trim_front(s))
}

/// What follows the first opening marker of language `lang` in `t`, if any.
pub open spec fn after_opener(t: Seq<char>, lang: Seq<char>) -> Option<Seq<char>> {
    match find_from(t, opener(lang), 0) {
        Some(i) => Some(t.subrange(i + opener(lang).len(), t.len() as int)),
        None => None,
    }
}

/// The untrimmed body of the first block of language `lang` in `t`: the text
/// between its opening marker and the next bare fence.
pub open spec fn fenced_region(t: Seq<char>, lang: Seq<char>) -> Option<Seq<char>> {
    match after_opener(t, lang) {
        Some(rest) => match find_from(rest, fence(), 0) {
            Some(j) => Some(rest.subrange(0, j)),
            None => None,
        },
        None => None,
    }
}

/// The code recovered from `t`: the first block's body, trimmed.
pub open spec fn extraction(t: Seq<char>, lang: Seq<char>) -> Option<Seq<char>> {
    match fenced_region(t, lang) {
        Some(region) => Some(trimmed(region)),
        None => None,
    }
}

/// Why no code could be recovered; each case carries the text that was searched.
pub enum ExtractError {
    /// There is no response to search yet.
    NoResponse,
    /// No opening marker with the language tag.
    NoStart(String),
    /// An opening marker, but no closing fence after it.
    NoEnd(String),
}

impl ExtractError {
    /// A message for humans.
    pub fn message(&self) -> (r: String)
        ensures
            r@ == match self {
                ExtractError::NoResponse => "no response"@,
                ExtractError::NoStart(t) => "no code block start found: "@ + t@,
                ExtractError::NoEnd(t) => "no code block end found: "@ + t@,
            },
    {
        match self {
            ExtractError::NoResponse => String::from_str("no response"),
            ExtractError::NoStart(t) => String::from_str("no code block start found: ").concat(
                t.as_str(),
            ),
            ExtractError::NoEnd(t) => String::from_str("no code block end found: ").concat(
                t.as_str(),
            ),
        }
    }
}

proof fn lemma_find_step(s: Seq<char>, pat: Seq<char>, i: int)
    requires
        0 <= i,
        i + pat.len() <= s.len(),
        !occurs_at(s, pat, i),
    ensures
        find_from(s, pat, i) == find_from(s, pat, i + 1),
{
}

/// If `k` is the first place where `pat` stands in `s` at or after `i`, the
/// search from `i` finds it.
pub proof fn lemma_find_first(s: Seq<char>, pat: Seq<char>, i: int, k: int)
    requires
        0 <= i <= k,
        occurs_at(s, pat, k),
        forall|j: int| i <= j < k ==> !occurs_at(s, pat, j),
    ensures
        find_from(s, pat, i) == Some(k),
    decreases k - i,
{
    if i < k {
        assert(!occurs_at(s, pat, i));
        lemma_find_first(s, pat, i + 1, k);
    }
}

proof fn lemma_trim_front_append(x: Seq<char>, y: Seq<char>)
    ensures
        trim_front(x + y) == (if trim_front(x).len() > 0 {
            trim_front(x) + y
        } else {
            trim_front(y)
        }),
    decreases x.len(),
{
    if x.len() == 0 {
        assert(x + y =~= y);
    } else if is_white_space(x[0]) {
        assert((x + y).drop_first() =~= x.drop_first() + y);
        lemma_trim_front_append(x.drop_first(), y);
    } else {
        assert((x + y)[0] == x[0]);
    }
}

/// Wrapping a text that holds no fence in a block tagged `lang`, with a line
/// break after the opening marker and another before the closing fence, and
/// then extracting, gives back the text trimmed.
pub proof fn lemma_wrap_round_trip(t: Seq<char>, lang: Seq<char>)
    requires
        forall|k: int| !occurs_at(t, fence(), k),
    ensures
        extraction(opener(lang) + seq!['\n'] + t + seq!['\n'] + fence(), lang) == Some(trimmed(t)),
{
    let nl = seq!['\n'];
    let w = opener(lang) + nl + t + nl + fence();
    let ol = opener(lang).len() as int;
    assert(w.subrange(0, ol) =~= opener(lang));
    lemma_find_first(w, opener(lang), 0, 0);
    let rest = w.subrange(ol, w.len() as int);
    assert(rest =~= nl + t + nl + fence());
    let e = t.len() + 2int;
    assert(rest.subrange(e, e + 3) =~= fence());
    assert forall|j: int| 0 <= j < e implies !occurs_at(rest, fence(), j) by {
        if occurs_at(rest, fence(), j) {
            assert(rest.subrange(j, j + 3)[0] == rest[j]);
            if j == 0 {
                assert(rest[0] == '\n');
            } else if j + 3 <= t.len() + 1 {
                assert(t.subrange(j - 1, j + 2) =~= rest.subrange(j, j + 3));
                assert(occurs_at(t, fence(), j - 1));
            } else {
                let q = t.len() + 1int;
                assert(rest[q] == '\n');
                assert(rest.subrange(j, j + 3)[q - j] == rest[q]);
            }
        }
    }
    lemma_find_first(rest, fence(), 0, e);
    let region = rest.subrange(0, e);
    assert(region =~= nl + (t + nl));
    assert(fenced_region(w, lang) == Some(region));
    assert(region.drop_first() =~= t + nl);
    assert(is_white_space(region[0]));
    assert(trim_front(region) == trim_front(t + nl));
    lemma_trim_front_append(t, nl);
    if trim_front(t).len() > 0 {
        let f = trim_front(t) + nl;
        assert(is_white_space(f.last()));
        assert(f.drop_last() =~= trim_front(t));
        assert(trim_back(f) == trim_back(trim_front(t)));
    } else {
        assert(is_white_space(nl[0]));
        assert(nl.drop_first() =~= Seq::<char>::empty());
        assert(trim_front(nl) == trim_front(Seq::<char>::empty()));
        assert(trim_front(t) =~= Seq::<char>::empty());
        assert(trim_front(t + nl) =~= Seq::<char>::empty());
    }
}

/// When the prose before the first block and that block's body hold no
/// backtick, extraction gives the first block's body trimmed, whatever text
/// and blocks follow its closing fence.
pub proof fn lemma_first_block_wins(prose: Seq<char>, body: Seq<char>, lang: Seq<char>, tail: Seq<char>)
    requires
        forall|k: int| 0 <= k < prose.len() ==> prose[k] != '`',
        forall|k: int| 0 <= k < body.len() ==> body[k] != '`',
    ensures
        extraction(prose + opener(lang) + body + fence() + tail, lang) == Some(trimmed(body)),
{
    let w = prose + opener(lang) + body + fence() + tail;
    let p = prose.len() as int;
    let ol = opener(lang).len() as int;
    assert(w.subrange(p, p + ol) =~= opener(lang));
    assert forall|j: int| 0 <= j < p implies !occurs_at(w, opener(lang), j) by {
        if occurs_at(w, opener(lang), j) {
            assert(w.subrange(j, j + ol)[0] == w[j]);
            assert(opener(lang)[0] == '`');
            assert(w[j] == prose[j]);
        }
    }
    lemma_find_first(w, opener(lang), 0, p);
    let rest = w.subrange(p + ol, w.len() as int);
    assert(rest =~= body + fence() + tail);
    let b = body.len() as int;
    assert(rest.subrange(b, b + 3) =~= fence());
    assert forall|j: int| 0 <= j < b implies !occurs_at(rest, fence(), j) by {
        if occurs_at(rest, fence(), j) {
            assert(rest.subrange(j, j + 3)[0] == rest[j]);
            assert(rest[j] == body[j]);
        }
    }
    lemma_find_first(rest, fence(), 0, b);
    assert(rest.subrange(0, b) =~= body);
}

proof fn lemma_trim_front_white(w: Seq<char>, x: Seq<char>)
    requires
        forall|k: int| 0 <= k < w.len() ==> is_white_space(#[trigger] w[k]),
    ensures
        trim_front(w + x) == trim_front(x),
    decreases w.len(),
{
    if w.len() > 0 {
        assert((w + x)[0] == w[0]);
        assert((w + x).drop_first() =~= w.drop_first() + x);
        assert forall|k: int| 0 <= k < w.drop_first().len() implies is_white_space(
            #[trigger] w.drop_first()[k],
        ) by {
            assert(w.drop_first()[k] == w[k + 1]);
        }
        lemma_trim_front_white(w.drop_first(), x);
    } else {
        assert(w + x =~= x);
    }
}

proof fn lemma_trim_back_white(y: Seq<char>, w: Seq<char>)
    requires
        forall|k: int| 0 <= k < w.len() ==> is_white_space(#[trigger] w[k]),
    ensures
        trim_back(y + w) == trim_back(y),
    decreases w.len(),
{
    if w.len() > 0 {
        assert((y + w).last() == w.last());
        assert((y + w).drop_last() =~= y + w.drop_last());
        assert forall|k: int| 0 <= k < w.drop_last().len() implies is_white_space(
            #[trigger] w.drop_last()[k],
        ) by {
            assert(w.drop_last()[k] == w[k]);
        }
        lemma_trim_back_white(y, w.drop_last());
    } else {
        assert(y + w =~= y);
    }
}

/// White space added before or after a text does not change it trimmed, so
/// extraction gives the same code when a block's body gains such padding.
pub proof fn lemma_trim_ignores_padding(before: Seq<char>, t: Seq<char>, after: Seq<char>)
    requires
        forall|k: int| 0 <= k < before.len() ==> is_white_space(#[trigger] before[k]),
        forall|k: int| 0 <= k < after.len() ==> is_white_space(#[trigger] after[k]),
    ensures
        trimmed(before + t + after) == trimmed(t),
{
    assert(before + t + after =~= before + (t + after));
    lemma_trim_front_white(before, t + after);
    lemma_trim_front_append(t, after);
    if trim_front(t).len() > 0 {
        lemma_trim_back_white(trim_front(t), after);
    } else {
        lemma_trim_front_white(after, Seq::<char>::empty());
        assert(after + Seq::<char>::empty() =~= after);
        assert(trim_front(t) =~= Seq::<char>::empty());
        assert(trim_front(Seq::<char>::empty()) =~= Seq::<char>::empty());
    }
}

/// The characters of `s`, one by one.
fn chars_of(s: &str) -> (r: Vec<char>)
    ensures
        r@ == s@,
{
    let n = s.unicode_len();
    let mut r: Vec<char> = Vec::new();
    let mut i: usize = 0;
    while i < n
        invariant
            n == s@.len(),
            i <= n,
            r@ == s@.subrange(0, i as int),
        decreases n - i,
    {
        r.push(s.get_char(i));
        i = i + 1;
    }
    assert(r@ =~= s@);
    r
}

/// Whether `pat` stands in `s` at index `i`.
fn occurs_at_exec(s: &Vec<char>, pat: &Vec<char>, i: usize) -> (r: bool)
    requires
        i + pat@.len() <= s@.len(),
    ensures
        r == occurs_at(s@, pat@, i as int),
{
    let n = s.len();
    let m = pat.len();
    let mut k: usize = 0;
    while k < m
        invariant
            n == s@.len(),
            m == pat@.len(),
            k <= m,
            i + m <= s@.len(),
            forall|q: int| 0 <= q < k ==> s@[i + q] == pat@[q],
        decreases m - k,
    {
        if s[i + k] != pat[k] {
            assert(s@.subrange(i as int, i + m)[k as int] != pat@[k as int]);
            return false;
        }
        k = k + 1;
    }
    assert(s@.subrange(i as int, i + m) =~= pat@);
    true
}

/// The first index where `pat` stands in `s`.
fn find(s: &Vec<char>, pat: &Vec<char>) -> (r: Option<usize>)
    ensures
        r matches Some(k) ==> find_from(s@, pat@, 0) == Some(k as int) && occurs_at(
            s@,
            pat@,
            k as int,
        ),
        r is None ==> find_from(s@, pat@, 0) is None,
{
    let n = s.len();
    let m = pat.len();
    if m > n {
        return None;
    }
    let mut i: usize = 0;
    while i <= n - m
        invariant
            n == s@.len(),
            m == pat@.len(),
            m <= n,
            i <= n - m + 1,
            find_from(s@, pat@, 0) == find_from(s@, pat@, i as int),
        decreases n - m + 1 - i,
    {
        if occurs_at_exec(s, pat, i) {
            return Some(i);
        }
        proof {
            lemma_find_step(s@, pat@, i as int);
            if m == 0 {
                assert(s@.subrange(i as int, i as int) =~= pat@);
            }
        }
        i = i + 1;
    }
    None
}

/// The characters of `s` from index `from` on.
fn tail_of(s: &Vec<char>, from: usize) -> (r: Vec<char>)
    requires
        from <= s@.len(),
    ensures
        r@ == s@.subrange(from as int, s@.len() as int),
{
    let mut r: Vec<char> = Vec::new();
    let mut i: usize = from;
    while i < s.len()
        invariant
            from <= i <= s@.len(),
            r@ == s@.subrange(from as int, i as int),
        decreases s@.len() - i,
    {
        r.push(s[i]);
        i = i + 1;
    }
    r
}

/// Whether `c` is a Unicode `White_Space` character.
pub fn is_white_space_char(c: char) -> (r: bool)
    ensures
        r == is_white_space(c),
{
    ('\u{9}' <= c && c <= '\u{d}') || c == ' ' || c == '\u{85}' || c == '\u{a0}'
        || c == '\u{1680}' || ('\u{2000}' <= c && c <= '\u{200a}') || c == '\u{2028}'
        || c == '\u{2029}' || c == '\u{202f}' || c == '\u{205f}' || c == '\u{3000}'
}

proof fn lemma_trim_front_at(s: Seq<char>, a: int)
    requires
        0 <= a <= s.len(),
        forall|q: int| 0 <= q < a ==> is_white_space(#[trigger] s[q]),
        a == s.len() || !is_white_space(s[a]),
    ensures
        trim_front(s) == s.subrange(a, s.len() as int),
    decreases a,
{
    if a > 0 {
        let t = s.drop_first();
        assert forall|q: int| 0 <= q < a - 1 implies is_white_space(#[trigger] t[q]) by {
            assert(t[q] == s[q + 1]);
        }
        lemma_trim_front_at(t, a - 1);
        assert(t.subrange(a - 1, t.len() as int) =~= s.subrange(a, s.len() as int));
    } else {
        assert(s.subrange(0, s.len() as int) =~= s);
    }
}

proof fn lemma_trim_back_at(s: Seq<char>, b: int)
    requires
        0 <= b <= s.len(),
        forall|q: int| b <= q < s.len() ==> is_white_space(#[trigger] s[q]),
        b == 0 || !is_white_space(s[b - 1]),
    ensures
        trim_back(s) == s.subrange(0, b),
    decreases s.len() - b,
{
    if b < s.len() {
        let t = s.drop_last();
        assert forall|q: int| b <= q < t.len() implies is_white_space(#[trigger] t[q]) by {
            assert(t[q] == s[q]);
        }
        lemma_trim_back_at(t, b);
        assert(t.subrange(0, b) =~= s.subrange(0, b));
    } else {
        assert(s.subrange(0, b) =~= s);
    }
}

/// Indices `lo <= hi` such that `s[lo..hi]` is `s[..end]` trimmed.
fn trim_bounds(s: &Vec<char>, end: usize) -> (r: (usize, usize))
    requires
        end <= s@.len(),
    ensures
        r.0 <= r.1 <= end,
        trimmed(s@.subrange(0, end as int)) == s@.subrange(r.0 as int, r.1 as int),
{
    let ghost region = s@.subrange(0, end as int);
    let mut lo: usize = 0;
    while lo < end && is_white_space_char(s[lo])
        invariant
            lo <= end <= s@.len(),
            region == s@.subrange(0, end as int),
            forall|q: int| 0 <= q < lo ==> is_white_space(#[trigger] region[q]),
        decreases end - lo,
    {
        lo = lo + 1;
    }
    proof {
        lemma_trim_front_at(region, lo as int);
    }
    let ghost front = region.subrange(lo as int, end as int);
    let mut hi: usize = end;
    while hi > lo && is_white_space_char(s[hi - 1])
        invariant
            lo <= hi <= end <= s@.len(),
            region == s@.subrange(0, end as int),
            front == region.subrange(lo as int, end as int),
            forall|q: int| hi - lo <= q < front.len() ==> is_white_space(#[trigger] front[q]),
        decreases hi - lo,
    {
        assert(front[hi - 1 - lo] == s@[hi - 1]);
        hi = hi - 1;
    }
    proof {
        if hi > lo {
            assert(front[hi - 1 - lo] == s@[hi - 1]);
        }
        lemma_trim_back_at(front, hi - lo);
        assert(front.subrange(0, hi - lo) =~= s@.subrange(lo as int, hi as int));
    }
    (lo, hi)
}

/// The body of the first fenced block tagged `lang` in `content`, trimmed.
/// Text before the block, after its closing fence, and any later blocks are
/// ignored.
pub fn extract_fenced(content: &str, lang: &str) -> (r: Result<String, ExtractError>)
    ensures
        extracted_from(r, content@, lang@),
{
    let text = chars_of(content);
    let n = text.len();
    let mut open: Vec<char> = Vec::new();
    open.push('`');
    open.push('`');
    open.push('`');
    let tag = chars_of(lang);
    let mut k: usize = 0;
    while k < tag.len()
        invariant
            k <= tag@.len(),
            open@ == fence() + tag@.subrange(0, k as int),
        decreases tag@.len() - k,
    {
        open.push(tag[k]);
        assert(open@ =~= fence() + tag@.subrange(0, k + 1));
        k = k + 1;
    }
    assert(open@ =~= opener(lang@));
    match find(&text, &open) {
        None => Err(ExtractError::NoStart(String::from_str(content))),
        Some(i) => {
            let start = i + open.len();
            let rest = tail_of(&text, start);
            let mut close: Vec<char> = Vec::new();
            close.push('`');
            close.push('`');
            close.push('`');
            assert(close@ =~= fence());
            assert(after_opener(content@, lang@) == Some(rest@));
            match find(&rest, &close) {
                None => Err(ExtractError::NoEnd(String::from_str(content))),
                Some(j) => {
                    let (lo, hi) = trim_bounds(&rest, j);
                    let code = content.substring_char(start + lo, start + hi);
                    assert(code@ =~= rest@.subrange(lo as int, hi as int));
                    assert(fenced_region(content@, lang@) == Some(rest@.subrange(0, j as int)));
                    Ok(String::from_str(code))
                },
            }
        },
    }
}

} // verus!

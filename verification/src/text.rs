//! Character-level text operations with the meaning that std gives them
//! (`trim`, `lines`, `split_whitespace`, `find`, decimal parsing and printing),
//! stated over `Seq<char>`.

use vstd::prelude::*;

verus! {

broadcast use vstd::string::group_string_axioms;

/// `String::push` appends the given character at the end of the string
/// (std documentation: "Appends the given char to the end of this String").
pub assume_specification[ String::push ](s: &mut String, ch: char)
    ensures
        final(s)@ == old(s)@.push(ch),
;

/// The characters of `s`, in order.
pub fn chars_of(s: &str) -> (res: Vec<char>)
    ensures
        res@ == s@,
{
    let mut res: Vec<char> = Vec::new();
    for c in it: s.chars()
        invariant
            res@ == it.seq().take(it.index() as int),
    {
        res.push(c);
    }
    res
}

/// A `String` holding exactly the characters of `v`.
pub fn string_of(v: &[char]) -> (res: String)
    ensures
        res@ == v@,
{
    let mut res = String::new();
    let mut i: usize = 0;
    while i < v.len()
        invariant
            i <= v.len(),
            res@ == v@.take(i as int),
        decreases v.len() - i,
    {
        res.push(v[i]);
        i = i + 1;
        assert(res@ =~= v@.take(i as int));
    }
    assert(v@.take(v.len() as int) =~= v@);
    res
}

/// A copy of `s[lo..hi]`.
pub fn copy_range(s: &[char], lo: usize, hi: usize) -> (res: Vec<char>)
    requires
        lo <= hi <= s.len(),
    ensures
        res@ == s@.subrange(lo as int, hi as int),
{
    let mut res: Vec<char> = Vec::new();
    let mut i: usize = lo;
    while i < hi
        invariant
            lo <= i <= hi <= s.len(),
            res@ == s@.subrange(lo as int, i as int),
        decreases hi - i,
    {
        res.push(s[i]);
        i = i + 1;
        assert(res@ =~= s@.subrange(lo as int, i as int));
    }
    res
}

/// `a` followed by `b`.
pub fn concat(a: &[char], b: &[char]) -> (res: Vec<char>)
    ensures
        res@ == a@ + b@,
{
    let mut res = copy_range(a, 0, a.len());
    let mut i: usize = 0;
    while i < b.len()
        invariant
            i <= b.len(),
            res@ == a@ + b@.take(i as int),
        decreases b.len() - i,
    {
        res.push(b[i]);
        i = i + 1;
        assert(res@ =~= a@ + b@.take(i as int));
    }
    assert(b@.take(b.len() as int) =~= b@);
    assert(a@.subrange(0, a@.len() as int) =~= a@);
    res
}

/// `a` followed by `b`, as a `String`.
pub fn cat(a: &str, b: &str) -> (res: String)
    ensures
        res@ == a@ + b@,
{
    string_of(&concat(&chars_of(a), &chars_of(b)))
}

/// Character-wise equality.
pub fn chars_eq(a: &[char], b: &[char]) -> (res: bool)
    ensures
        res == (a@ == b@),
{
    if a.len() != b.len() {
        return false;
    }
    let mut i: usize = 0;
    while i < a.len()
        invariant
            i <= a.len() == b.len(),
            a@.take(i as int) == b@.take(i as int),
        decreases a.len() - i,
    {
        if a[i] != b[i] {
            assert(a@.take(i as int + 1)[i as int] != b@.take(i as int + 1)[i as int]);
            return false;
        }
        assert(a@.take(i as int + 1) =~= a@.take(i as int).push(a@[i as int]));
        assert(b@.take(i as int + 1) =~= b@.take(i as int).push(b@[i as int]));
        i = i + 1;
    }
    assert(a@ =~= a@.take(a.len() as int));
    assert(b@ =~= b@.take(b.len() as int));
    true
}

/// The text of an optional string slice.
pub open spec fn opt_text(o: Option<&str>) -> Option<Seq<char>> {
    match o {
        Some(s) => Some(s@),
        None => None,
    }
}

/// Whether `s` is exactly the text `lit`.
pub fn str_is(s: &str, lit: &str) -> (res: bool)
    ensures
        res == (s@ == lit@),
{
    chars_eq(&chars_of(s), &chars_of(lit))
}

/// The characters held by an optional character vector.
pub open spec fn opt_chars(o: Option<Vec<char>>) -> Option<Seq<char>> {
    match o {
        Some(v) => Some(v@),
        None => None,
    }
}

/// A `String` for an optional character vector.
pub fn opt_string(o: &Option<Vec<char>>) -> (res: Option<String>)
    ensures
        res.deep_view() == opt_chars(*o),
{
    match o {
        Some(v) => Some(string_of(v)),
        None => None,
    }
}

/// The characters of an optional string.
pub fn opt_chars_of(o: &Option<String>) -> (res: Option<Vec<char>>)
    ensures
        opt_chars(res) == o.deep_view(),
{
    match o {
        Some(s) => Some(chars_of(s.as_str())),
        None => None,
    }
}

/// The lines after the first one (`lines().skip(1)`).
pub open spec fn after_first<A>(ls: Seq<A>) -> Seq<A> {
    if ls.len() == 0 {
        ls
    } else {
        ls.skip(1)
    }
}

/// The character sequences held by a vector of character vectors.
pub open spec fn seqs(v: Seq<Vec<char>>) -> Seq<Seq<char>> {
    Seq::new(v.len(), |i: int| v[i]@)
}

// ---------------------------------------------------------------- whitespace

/// The Unicode `White_Space` property, which `char::is_whitespace` tests.
pub open spec fn is_ws(c: char) -> bool {
    let u = c as u32;
    (9 <= u <= 13) || u == 32 || u == 0x85 || u == 0xa0 || u == 0x1680 || (0x2000 <= u
        <= 0x200a) || u == 0x2028 || u == 0x2029 || u == 0x202f || u == 0x205f || u == 0x3000
}

pub fn is_whitespace(c: char) -> (res: bool)
    ensures
        res == is_ws(c),
{
    let u = c as u32;
    (9 <= u && u <= 13) || u == 32 || u == 0x85 || u == 0xa0 || u == 0x1680 || (0x2000 <= u && u
        <= 0x200a) || u == 0x2028 || u == 0x2029 || u == 0x202f || u == 0x205f || u == 0x3000
}

/// `s` without its leading whitespace.
pub open spec fn trim_start(s: Seq<char>) -> Seq<char>
    decreases s.len(),
{
    if s.len() > 0 && is_ws(s[0]) {
        trim_start(s.drop_first())
    } else {
        s
    }
}

/// `s` without its trailing whitespace.
pub open spec fn trim_end(s: Seq<char>) -> Seq<char>
    decreases s.len(),
{
    if s.len() > 0 && is_ws(s.last()) {
        trim_end(s.drop_last())
    } else {
        s
    }
}

/// `str::trim`: `s` without leading and trailing whitespace.
pub open spec fn trim(s: Seq<char>) -> Seq<char> {
    trim_end(trim_start(s))
}

/// `str::trim`.
pub fn trim_chars(s: &[char]) -> (res: Vec<char>)
    ensures
        res@ == trim(s@),
{
    let mut lo: usize = 0;
    assert(s@.subrange(0, s.len() as int) =~= s@);
    while lo < s.len() && is_whitespace(s[lo])
        invariant
            lo <= s.len(),
            trim_start(s@) == trim_start(s@.subrange(lo as int, s.len() as int)),
        decreases s.len() - lo,
    {
        assert(s@.subrange(lo as int, s.len() as int).drop_first() =~= s@.subrange(
            lo + 1,
            s.len() as int,
        ));
        lo = lo + 1;
    }
    let mut hi: usize = s.len();
    while hi > lo && is_whitespace(s[hi - 1])
        invariant
            lo <= hi <= s.len(),
            trim_start(s@) == s@.subrange(lo as int, s.len() as int),
            trim(s@) == trim_end(s@.subrange(lo as int, hi as int)),
        decreases hi - lo,
    {
        assert(s@.subrange(lo as int, hi as int).drop_last() =~= s@.subrange(
            lo as int,
            hi - 1,
        ));
        hi = hi - 1;
    }
    copy_range(s, lo, hi)
}

// ---------------------------------------------------------------- searching

/// Index of the first `c` in `s`.
pub open spec fn find_char(s: Seq<char>, c: char) -> Option<int>
    decreases s.len(),
{
    if s.len() == 0 {
        None
    } else if s[0] == c {
        Some(0)
    } else {
        match find_char(s.drop_first(), c) {
            Some(i) => Some(i + 1),
            None => None,
        }
    }
}

pub proof fn lemma_find_char(s: Seq<char>, c: char)
    ensures
        match find_char(s, c) {
            Some(i) => 0 <= i < s.len() && s[i] == c && forall|j: int|
                0 <= j < i ==> s[j] != c,
            None => forall|j: int| 0 <= j < s.len() ==> s[j] != c,
        },
    decreases s.len(),
{
    if s.len() > 0 && s[0] != c {
        lemma_find_char(s.drop_first(), c);
        assert forall|j: int| 1 <= j < s.len() implies s[j] == s.drop_first()[j - 1] by {}
    }
}

/// Index of the last `c` in `s`.
pub open spec fn rfind_char(s: Seq<char>, c: char) -> Option<int>
    decreases s.len(),
{
    if s.len() == 0 {
        None
    } else if s.last() == c {
        Some(s.len() - 1)
    } else {
        rfind_char(s.drop_last(), c)
    }
}

pub proof fn lemma_rfind_char(s: Seq<char>, c: char)
    ensures
        match rfind_char(s, c) {
            Some(i) => 0 <= i < s.len() && s[i] == c && forall|j: int|
                i < j < s.len() ==> s[j] != c,
            None => forall|j: int| 0 <= j < s.len() ==> s[j] != c,
        },
    decreases s.len(),
{
    if s.len() > 0 && s.last() != c {
        lemma_rfind_char(s.drop_last(), c);
        assert forall|j: int| 0 <= j < s.len() - 1 implies s[j] == s.drop_last()[j] by {}
    }
}

/// `str::find(char)`.
pub fn find_char_exec(s: &[char], c: char) -> (res: Option<usize>)
    ensures
        match res {
            Some(i) => find_char(s@, c) == Some(i as int),
            None => find_char(s@, c) is None,
        },
{
    proof { lemma_find_char(s@, c); }
    let mut i: usize = 0;
    while i < s.len()
        invariant
            i <= s.len(),
            forall|j: int| 0 <= j < i ==> s@[j] != c,
        decreases s.len() - i,
    {
        if s[i] == c {
            proof {
                lemma_find_char(s@, c);
                match find_char(s@, c) {
                    Some(k) => {
                        if k < i {
                            assert(s@[k] != c);
                        }
                        if k > i {
                            assert(s@[i as int] != c);
                        }
                    },
                    None => {
                        assert(s@[i as int] != c);
                    },
                }
            }
            return Some(i);
        }
        i = i + 1;
    }
    None
}

/// `str::rfind(char)`.
pub fn rfind_char_exec(s: &[char], c: char) -> (res: Option<usize>)
    ensures
        match res {
            Some(i) => rfind_char(s@, c) == Some(i as int),
            None => rfind_char(s@, c) is None,
        },
{
    proof { lemma_rfind_char(s@, c); }
    let mut i: usize = s.len();
    while i > 0
        invariant
            i <= s.len(),
            forall|j: int| i <= j < s.len() ==> s@[j] != c,
        decreases i,
    {
        if s[i - 1] == c {
            proof {
                lemma_rfind_char(s@, c);
                match rfind_char(s@, c) {
                    Some(k) => {
                        if k < i - 1 {
                            assert(s@[i - 1] != c);
                        }
                        if k > i - 1 {
                            assert(s@[k] != c);
                        }
                    },
                    None => {
                        assert(s@[i - 1] != c);
                    },
                }
            }
            return Some(i - 1);
        }
        i = i - 1;
    }
    None
}


// ---------------------------------------------------------------- lines

/// `l` without one trailing carriage return.
pub open spec fn strip_cr(l: Seq<char>) -> Seq<char> {
    if l.len() > 0 && l.last() == '\r' {
        l.drop_last()
    } else {
        l
    }
}

/// `str::lines`: pieces between line feeds; a carriage return just before a
/// line feed belongs to the line ending; a final line feed ends the last line.
pub open spec fn lines(s: Seq<char>) -> Seq<Seq<char>>
    decreases s.len(),
{
    if s.len() == 0 {
        seq![]
    } else {
        match find_char(s, '\n') {
            Some(i) => {
                proof {
                    lemma_find_char(s, '\n');
                }
                seq![strip_cr(s.take(i))] + lines(s.skip(i + 1))
            },
            None => seq![s],
        }
    }
}

/// The first occurrence of `c` is found.
pub proof fn lemma_find_char_at(s: Seq<char>, c: char, k: int)
    requires
        0 <= k < s.len(),
        s[k] == c,
        forall|j: int| 0 <= j < k ==> s[j] != c,
    ensures
        find_char(s, c) == Some(k),
{
    lemma_find_char(s, c);
}

/// A line without line feed, followed by one, is the first line.
pub proof fn lemma_lines_cons(a: Seq<char>, rest: Seq<char>)
    requires
        forall|i: int| 0 <= i < a.len() ==> a[i] != '\n',
        a.len() > 0 ==> a.last() != '\r',
    ensures
        lines(a + "\n"@ + rest) == seq![a] + lines(rest),
{
    reveal_strlit("\n");
    let s = a + "\n"@ + rest;
    assert(s[a.len() as int] == '\n');
    assert forall|j: int| 0 <= j < a.len() implies s[j] != '\n' by {
        assert(s[j] == a[j]);
    }
    lemma_find_char_at(s, '\n', a.len() as int);
    assert(s.take(a.len() as int) =~= a);
    assert(s.skip(a.len() as int + 1) =~= rest);
}

/// `str::lines`.
pub fn split_lines(s: &[char]) -> (res: Vec<Vec<char>>)
    ensures
        seqs(res@) == lines(s@),
{
    let mut res: Vec<Vec<char>> = Vec::new();
    let mut i: usize = 0;
    assert(s@.skip(0) =~= s@);
    while i < s.len()
        invariant
            i <= s.len(),
            lines(s@) == seqs(res@) + lines(s@.skip(i as int)),
        decreases s.len() - i,
    {
        let ghost rest = s@.skip(i as int);
        let mut j: usize = i;
        while j < s.len() && s[j] != '\n'
            invariant
                i <= j <= s.len(),
                forall|k: int| i <= k < j ==> s@[k] != '\n',
            decreases s.len() - j,
        {
            j = j + 1;
        }
        let ghost old_res = seqs(res@);
        proof {
            lemma_find_char(rest, '\n');
        }
        if j == s.len() {
            proof {
                match find_char(rest, '\n') {
                    Some(k) => {
                        assert(rest[k] == s@[i + k]);
                    },
                    None => {},
                }
            }
            res.push(copy_range(s, i, j));
            assert(seqs(res@) =~= old_res + seq![rest]);
            assert(rest.skip(rest.len() as int) =~= Seq::<char>::empty());
            i = j;
            assert(s@.skip(i as int) =~= Seq::<char>::empty());
        } else {
            let mut line = copy_range(s, i, j);
            if line.len() > 0 && line[line.len() - 1] == '\r' {
                line.pop();
            }
            proof {
                match find_char(rest, '\n') {
                    Some(k) => {
                        if k < j - i {
                            assert(rest[k] == s@[i + k]);
                        }
                        if k > j - i {
                            assert(rest[j - i] == s@[j as int]);
                        }
                    },
                    None => {
                        assert(rest[j - i] == s@[j as int]);
                    },
                }
                assert(rest.take(j - i) =~= s@.subrange(i as int, j as int));
                assert(rest.skip(j - i + 1) =~= s@.skip(j + 1));
            }
            res.push(line);
            assert(seqs(res@) =~= old_res + seq![strip_cr(rest.take(j - i))]);
            i = j + 1;
        }
    }
    assert(s@.skip(i as int) =~= Seq::<char>::empty());
    assert(seqs(res@) + Seq::<Seq<char>>::empty() =~= seqs(res@));
    res
}

// ---------------------------------------------------------------- words

/// Length of the leading run of non-whitespace characters.
pub open spec fn word_len(s: Seq<char>) -> nat
    decreases s.len(),
{
    if s.len() > 0 && !is_ws(s[0]) {
        1 + word_len(s.drop_first())
    } else {
        0
    }
}

pub proof fn lemma_word_len(s: Seq<char>)
    ensures
        word_len(s) <= s.len(),
        forall|k: int| 0 <= k < word_len(s) ==> !is_ws(s[k]),
        word_len(s) < s.len() ==> is_ws(s[word_len(s) as int]),
    decreases s.len(),
{
    if s.len() > 0 && !is_ws(s[0]) {
        lemma_word_len(s.drop_first());
        assert forall|k: int| 1 <= k < s.len() implies s[k] == s.drop_first()[k - 1] by {}
    }
}

pub proof fn lemma_word_len_is(s: Seq<char>, n: int)
    requires
        0 <= n <= s.len(),
        forall|k: int| 0 <= k < n ==> !is_ws(s[k]),
        n < s.len() ==> is_ws(s[n]),
    ensures
        word_len(s) == n,
    decreases s.len(),
{
    if n > 0 {
        assert forall|k: int| 0 <= k < n - 1 implies !is_ws(s.drop_first()[k]) by {
            assert(s.drop_first()[k] == s[k + 1]);
        }
        if n - 1 < s.len() - 1 {
            assert(s.drop_first()[n - 1] == s[n]);
        }
        lemma_word_len_is(s.drop_first(), n - 1);
    }
}

/// `str::split_whitespace`: the maximal runs of non-whitespace characters.
pub open spec fn words(s: Seq<char>) -> Seq<Seq<char>>
    decreases s.len(),
{
    if s.len() == 0 {
        seq![]
    } else if is_ws(s[0]) {
        words(s.drop_first())
    } else {
        proof {
            lemma_word_len(s);
        }
        seq![s.take(word_len(s) as int)] + words(s.skip(word_len(s) as int))
    }
}

/// Every word has at least one character.
pub proof fn lemma_words_nonempty(s: Seq<char>)
    ensures
        forall|i: int| 0 <= i < words(s).len() ==> #[trigger] words(s)[i].len() > 0,
    decreases s.len(),
{
    if s.len() > 0 {
        if is_ws(s[0]) {
            lemma_words_nonempty(s.drop_first());
            assert(words(s) == words(s.drop_first()));
        } else {
            lemma_word_len(s);
            let n = word_len(s) as int;
            lemma_word_len_pos(s);
            lemma_words_nonempty(s.skip(n));
            let w = words(s);
            assert(w == seq![s.take(n)] + words(s.skip(n)));
            assert forall|i: int| 0 <= i < w.len() implies #[trigger] w[i].len() > 0 by {
                if i == 0 {
                    assert(w[0] == s.take(n));
                } else {
                    assert(w[i] == words(s.skip(n))[i - 1]);
                }
            }
        }
    }
}

/// A word followed by whitespace (or by nothing) is the first word.
pub proof fn lemma_words_lead(w: Seq<char>, t: Seq<char>)
    requires
        w.len() > 0,
        forall|k: int| 0 <= k < w.len() ==> !is_ws(#[trigger] w[k]),
        t.len() > 0 ==> is_ws(t[0]),
    ensures
        words(w + t) == seq![w] + words(t),
{
    let s = w + t;
    let n = w.len() as int;
    assert forall|k: int| 0 <= k < n implies !is_ws(#[trigger] s[k]) by {
        assert(s[k] == w[k]);
    }
    if n < s.len() {
        assert(s[n] == t[0]);
    }
    lemma_word_len_is(s, n);
    assert(!is_ws(s[0])) by {
        assert(s[0] == w[0]);
    }
    assert(s.take(n) =~= w);
    assert(s.skip(n) =~= t);
}

/// Leading whitespace is skipped.
pub proof fn lemma_words_skip_ws(c: char, t: Seq<char>)
    requires
        is_ws(c),
    ensures
        words(seq![c] + t) == words(t),
{
    assert((seq![c] + t).drop_first() =~= t);
}

proof fn lemma_word_len_pos(s: Seq<char>)
    requires
        s.len() > 0,
        !is_ws(s[0]),
    ensures
        word_len(s) >= 1,
{
}

/// `str::split_whitespace`.
pub fn split_words(s: &[char]) -> (res: Vec<Vec<char>>)
    ensures
        seqs(res@) == words(s@),
{
    let mut res: Vec<Vec<char>> = Vec::new();
    let mut i: usize = 0;
    assert(s@.skip(0) =~= s@);
    while i < s.len()
        invariant
            i <= s.len(),
            words(s@) == seqs(res@) + words(s@.skip(i as int)),
        decreases s.len() - i,
    {
        let ghost rest = s@.skip(i as int);
        if is_whitespace(s[i]) {
            assert(rest.drop_first() =~= s@.skip(i + 1));
            i = i + 1;
        } else {
            let mut j: usize = i;
            while j < s.len() && !is_whitespace(s[j])
                invariant
                    i <= j <= s.len(),
                    forall|k: int| i <= k < j ==> !is_ws(s@[k]),
                decreases s.len() - j,
            {
                j = j + 1;
            }
            proof {
                assert forall|k: int| 0 <= k < j - i implies !is_ws(rest[k]) by {
                    assert(rest[k] == s@[i + k]);
                }
                if j < s.len() {
                    assert(rest[j - i] == s@[j as int]);
                }
                lemma_word_len_is(rest, j - i);
                assert(rest.take(j - i) =~= s@.subrange(i as int, j as int));
                assert(rest.skip(j - i) =~= s@.skip(j as int));
            }
            let ghost old_res = seqs(res@);
            res.push(copy_range(s, i, j));
            assert(seqs(res@) =~= old_res + seq![rest.take(j - i)]);
            i = j;
        }
    }
    assert(s@.skip(i as int) =~= Seq::<char>::empty());
    assert(seqs(res@) + Seq::<Seq<char>>::empty() =~= seqs(res@));
    res
}


// ---------------------------------------------------------------- substrings

/// `p` occurs in `s` at index `i`.
pub open spec fn occurs_at(s: Seq<char>, p: Seq<char>, i: int) -> bool {
    0 <= i && i + p.len() <= s.len() && s.subrange(i, i + p.len()) == p
}

/// `str::starts_with`.
pub open spec fn starts_with(s: Seq<char>, p: Seq<char>) -> bool {
    occurs_at(s, p, 0)
}

/// `str::ends_with`.
pub open spec fn ends_with(s: Seq<char>, p: Seq<char>) -> bool {
    p.len() <= s.len() && occurs_at(s, p, s.len() - p.len())
}

/// `str::contains`.
pub open spec fn contains_str(s: Seq<char>, p: Seq<char>) -> bool {
    exists|i: int| occurs_at(s, p, i)
}

/// `str::find(&str)`: index of the first occurrence of `p` in `s`.
pub open spec fn find_str(s: Seq<char>, p: Seq<char>) -> Option<int>
    decreases s.len(),
{
    if occurs_at(s, p, 0) {
        Some(0)
    } else if s.len() == 0 {
        None
    } else {
        match find_str(s.drop_first(), p) {
            Some(i) => Some(i + 1),
            None => None,
        }
    }
}

pub proof fn lemma_occurs_drop_first(s: Seq<char>, p: Seq<char>, i: int)
    requires
        s.len() > 0,
        i >= 0,
    ensures
        occurs_at(s.drop_first(), p, i) <==> occurs_at(s, p, i + 1),
{
    if 0 <= i && i + p.len() <= s.len() - 1 {
        assert(s.drop_first().subrange(i, i + p.len()) =~= s.subrange(i + 1, i + 1 + p.len()));
    }
}

pub proof fn lemma_find_str(s: Seq<char>, p: Seq<char>)
    ensures
        match find_str(s, p) {
            Some(i) => occurs_at(s, p, i) && forall|j: int| j < i ==> !occurs_at(s, p, j),
            None => forall|j: int| !occurs_at(s, p, j),
        },
        contains_str(s, p) <==> find_str(s, p) is Some,
    decreases s.len(),
{
    if !occurs_at(s, p, 0) && s.len() > 0 {
        lemma_find_str(s.drop_first(), p);
        assert forall|j: int| #![trigger occurs_at(s, p, j)] 1 <= j implies (occurs_at(s, p, j)
            <==> occurs_at(s.drop_first(), p, j - 1)) by {
            lemma_occurs_drop_first(s, p, j - 1);
        }
        match find_str(s.drop_first(), p) {
            Some(i) => {
                assert(occurs_at(s, p, i + 1));
            },
            None => {
                assert forall|j: int| !occurs_at(s, p, j) by {
                    if j >= 1 {
                        assert(!occurs_at(s.drop_first(), p, j - 1));
                    }
                }
            },
        }
    }
    match find_str(s, p) {
        Some(i) => {},
        None => {},
    }
}

/// Whether `p` occurs in `s` at index `i`.
pub fn occurs_at_exec(s: &[char], p: &[char], i: usize) -> (res: bool)
    ensures
        res == occurs_at(s@, p@, i as int),
{
    if i > s.len() || p.len() > s.len() - i {
        return false;
    }
    let mut k: usize = 0;
    while k < p.len()
        invariant
            i + p.len() <= s.len(),
            k <= p.len(),
            forall|m: int| 0 <= m < k ==> s@[i + m] == p@[m],
        decreases p.len() - k,
    {
        if s[i + k] != p[k] {
            assert(s@.subrange(i as int, i + p.len())[k as int] != p@[k as int]);
            return false;
        }
        k = k + 1;
    }
    assert(s@.subrange(i as int, i + p.len()) =~= p@);
    true
}

/// `str::find(&str)`.
pub fn find_str_exec(s: &[char], p: &[char]) -> (res: Option<usize>)
    ensures
        match res {
            Some(i) => find_str(s@, p@) == Some(i as int),
            None => find_str(s@, p@) is None,
        },
{
    let mut i: usize = 0;
    while i < s.len() && !occurs_at_exec(s, p, i)
        invariant
            i <= s.len(),
            forall|j: int| j < i ==> !occurs_at(s@, p@, j),
        decreases s.len() - i,
    {
        i = i + 1;
    }
    if occurs_at_exec(s, p, i) {
        {
            proof {
                lemma_find_str(s@, p@);
                match find_str(s@, p@) {
                    Some(k) => {
                        if k < i {
                            assert(!occurs_at(s@, p@, k));
                        }
                        if k > i {
                            assert(!occurs_at(s@, p@, i as int));
                        }
                    },
                    None => {
                        assert(!occurs_at(s@, p@, i as int));
                    },
                }
            }
            return Some(i);
        }
    }
    proof {
        lemma_find_str(s@, p@);
        match find_str(s@, p@) {
            Some(k) => {
                assert(!occurs_at(s@, p@, k));
            },
            None => {},
        }
    }
    None
}

/// `str::contains(&str)`.
pub fn contains_exec(s: &[char], p: &[char]) -> (res: bool)
    ensures
        res == contains_str(s@, p@),
{
    proof {
        lemma_find_str(s@, p@);
    }
    find_str_exec(s, p).is_some()
}

/// `str::starts_with(&str)`.
pub fn starts_with_exec(s: &[char], p: &[char]) -> (res: bool)
    ensures
        res == starts_with(s@, p@),
{
    occurs_at_exec(s, p, 0)
}

/// `str::ends_with(&str)`.
pub fn ends_with_exec(s: &[char], p: &[char]) -> (res: bool)
    ensures
        res == ends_with(s@, p@),
{
    if p.len() > s.len() {
        false
    } else {
        occurs_at_exec(s, p, s.len() - p.len())
    }
}

/// `s` after removing `p` from its front as often as it is there
/// (`str::trim_start_matches` with a string pattern).
pub open spec fn trim_start_matches(s: Seq<char>, p: Seq<char>) -> Seq<char>
    decreases s.len(),
{
    if p.len() > 0 && starts_with(s, p) {
        trim_start_matches(s.skip(p.len() as int), p)
    } else {
        s
    }
}

/// `str::trim_start_matches(&str)`.
pub fn trim_start_matches_exec(s: &[char], p: &[char]) -> (res: Vec<char>)
    ensures
        res@ == trim_start_matches(s@, p@),
{
    let mut i: usize = 0;
    assert(s@.skip(0) =~= s@);
    if p.len() == 0 {
        return copy_range(s, 0, s.len());
    }
    while i <= s.len() && p.len() <= s.len() - i && occurs_at_exec(s, p, i)
        invariant
            p.len() > 0,
            i <= s.len(),
            trim_start_matches(s@, p@) == trim_start_matches(s@.skip(i as int), p@),
        decreases s.len() - i,
    {
        assert(s@.skip(i as int).subrange(0, p.len() as int) =~= s@.subrange(
            i as int,
            i + p.len(),
        ));
        assert(s@.skip(i as int).skip(p.len() as int) =~= s@.skip(i + p.len()));
        i = i + p.len();
    }
    if p.len() <= s.len() - i {
        assert(s@.skip(i as int).subrange(0, p.len() as int) =~= s@.subrange(
            i as int,
            i + p.len(),
        ));
    }
    assert(s@.skip(i as int) =~= s@.subrange(i as int, s.len() as int));
    copy_range(s, i, s.len())
}

/// `s` without the copies of `c` at its end (`str::trim_end_matches(char)`).
pub open spec fn trim_end_char(s: Seq<char>, c: char) -> Seq<char>
    decreases s.len(),
{
    if s.len() > 0 && s.last() == c {
        trim_end_char(s.drop_last(), c)
    } else {
        s
    }
}

/// `str::trim_end_matches(char)`.
pub fn trim_end_char_exec(s: &[char], c: char) -> (res: Vec<char>)
    ensures
        res@ == trim_end_char(s@, c),
{
    let mut hi: usize = s.len();
    assert(s@.subrange(0, s.len() as int) =~= s@);
    while hi > 0 && s[hi - 1] == c
        invariant
            hi <= s.len(),
            trim_end_char(s@, c) == trim_end_char(s@.subrange(0, hi as int), c),
        decreases hi,
    {
        assert(s@.subrange(0, hi as int).drop_last() =~= s@.subrange(0, hi - 1));
        hi = hi - 1;
    }
    copy_range(s, 0, hi)
}

/// `str::split_once(char)`.
pub open spec fn split_once(s: Seq<char>, c: char) -> Option<(Seq<char>, Seq<char>)> {
    match find_char(s, c) {
        Some(i) => Some((s.take(i), s.skip(i + 1))),
        None => None,
    }
}

/// `str::split_once(char)`.
pub fn split_once_exec(s: &[char], c: char) -> (res: Option<(Vec<char>, Vec<char>)>)
    ensures
        match res {
            Some((a, b)) => split_once(s@, c) == Some((a@, b@)),
            None => split_once(s@, c) is None,
        },
{
    match find_char_exec(s, c) {
        Some(i) => {
            proof {
                lemma_find_char(s@, c);
            }
            assert(i < s.len());
            let a = copy_range(s, 0, i);
            let b = copy_range(s, i + 1, s.len());
            assert(a@ =~= s@.take(i as int));
            assert(b@ =~= s@.skip(i + 1));
            Some((a, b))
        },
        None => None,
    }
}

/// `s.split(c).nth(1)`: the text between the first and the second `c`
/// (or up to the end when there is no second one).
pub open spec fn second_field(s: Seq<char>, c: char) -> Option<Seq<char>> {
    match split_once(s, c) {
        Some((_, rest)) => match find_char(rest, c) {
            Some(j) => Some(rest.take(j)),
            None => Some(rest),
        },
        None => None,
    }
}

/// `s.split(c).nth(1)`.
pub fn second_field_exec(s: &[char], c: char) -> (res: Option<Vec<char>>)
    ensures
        match res {
            Some(f) => second_field(s@, c) == Some(f@),
            None => second_field(s@, c) is None,
        },
{
    match split_once_exec(s, c) {
        Some((_, rest)) => match find_char_exec(&rest, c) {
            Some(j) => {
                proof {
                    lemma_find_char(rest@, c);
                }
                let f = copy_range(&rest, 0, j);
                assert(f@ =~= rest@.take(j as int));
                Some(f)
            },
            None => Some(rest),
        },
        None => None,
    }
}

// ---------------------------------------------------------------- case

/// `char::to_ascii_lowercase`.
pub open spec fn lower_char(c: char) -> char {
    if 'A' <= c <= 'Z' {
        ((c as u32) + 32) as char
    } else {
        c
    }
}

/// `str::to_ascii_lowercase`.
pub open spec fn to_ascii_lower(s: Seq<char>) -> Seq<char> {
    Seq::new(s.len(), |i: int| lower_char(s[i]))
}

/// `str::to_ascii_lowercase`.
pub fn to_ascii_lower_exec(s: &[char]) -> (res: Vec<char>)
    ensures
        res@ == to_ascii_lower(s@),
{
    let mut res: Vec<char> = Vec::new();
    let mut i: usize = 0;
    while i < s.len()
        invariant
            i <= s.len(),
            res@ == to_ascii_lower(s@.take(i as int)),
        decreases s.len() - i,
    {
        let c = s[i];
        let d = if 'A' <= c && c <= 'Z' {
            ((c as u8) + 32) as char
        } else {
            c
        };
        res.push(d);
        i = i + 1;
        assert(res@ =~= to_ascii_lower(s@.take(i as int)));
    }
    assert(s@.take(s.len() as int) =~= s@);
    res
}


// ---------------------------------------------------------------- joining

/// `slice::join`: the pieces with `sep` between neighbours.
pub open spec fn join(ws: Seq<Seq<char>>, sep: Seq<char>) -> Seq<char>
    decreases ws.len(),
{
    if ws.len() == 0 {
        seq![]
    } else if ws.len() == 1 {
        ws[0]
    } else {
        join(ws.drop_last(), sep) + sep + ws.last()
    }
}

/// `ws[lo..hi].join(sep)`.
pub fn join_range(ws: &Vec<Vec<char>>, lo: usize, hi: usize, sep: &[char]) -> (res: Vec<char>)
    requires
        lo <= hi <= ws.len(),
    ensures
        res@ == join(seqs(ws@).subrange(lo as int, hi as int), sep@),
{
    let mut res: Vec<char> = Vec::new();
    let mut i: usize = lo;
    while i < hi
        invariant
            lo <= i <= hi <= ws.len(),
            res@ == join(seqs(ws@).subrange(lo as int, i as int), sep@),
        decreases hi - i,
    {
        let ghost prev = seqs(ws@).subrange(lo as int, i as int);
        let ghost next = seqs(ws@).subrange(lo as int, i + 1);
        assert(next.drop_last() =~= prev);
        assert(next.last() == ws@[i as int]@);
        if i == lo {
            res = copy_range(&ws[i], 0, ws[i].len());
            assert(res@ =~= next[0]);
        } else {
            let with_sep = concat(&res, sep);
            res = concat(&with_sep, &ws[i]);
        }
        i = i + 1;
    }
    res
}

// ---------------------------------------------------------------- numbers

/// The ASCII digit for `d < 10`.
pub open spec fn digit_char(d: nat) -> char {
    (d + 48) as char
}

/// The decimal digits of `n`, most significant first, without leading zeros.
pub open spec fn decimal(n: nat) -> Seq<char>
    decreases n,
{
    if n < 10 {
        seq![digit_char(n)]
    } else {
        decimal(n / 10).push(digit_char(n % 10))
    }
}

/// `u128::to_string`.
pub fn fmt_decimal(n: u128) -> (res: Vec<char>)
    ensures
        res@ == decimal(n as nat),
    decreases n,
{
    let d = (48u8 + (n % 10) as u8) as char;
    if n < 10 {
        let mut v: Vec<char> = Vec::new();
        v.push(d);
        assert(v@ =~= seq![digit_char(n as nat)]);
        v
    } else {
        let mut v = fmt_decimal(n / 10);
        v.push(d);
        v
    }
}

/// `i64::to_string`.
pub open spec fn signed_decimal(n: int) -> Seq<char> {
    if n < 0 {
        seq!['-'] + decimal((-n) as nat)
    } else {
        decimal(n as nat)
    }
}

/// `i64::to_string`.
pub fn fmt_signed(n: i64) -> (res: Vec<char>)
    ensures
        res@ == signed_decimal(n as int),
{
    if n < 0 {
        let m: i128 = -(n as i128);
        let digits = fmt_decimal(m as u128);
        let mut v: Vec<char> = Vec::new();
        v.push('-');
        concat(&v, &digits)
    } else {
        fmt_decimal(n as u128)
    }
}

/// An ASCII decimal digit.
pub open spec fn is_digit(c: char) -> bool {
    '0' <= c <= '9'
}

/// The number that the decimal digits `s` denote.
pub open spec fn digits_value(s: Seq<char>) -> nat
    decreases s.len(),
{
    if s.len() == 0 {
        0
    } else {
        digits_value(s.drop_last()) * 10 + ((s.last() as u32) - 48) as nat
    }
}

/// The digits that an unsigned `from_str` reads: one leading `+` is allowed.
pub open spec fn unsigned_digits(s: Seq<char>) -> Seq<char> {
    if s.len() > 0 && s[0] == '+' {
        s.drop_first()
    } else {
        s
    }
}

/// `u32::from_str` / `u64::from_str` with `max` the type's largest value:
/// an optional `+`, then at least one ASCII digit and nothing else, denoting
/// at most `max`.
pub open spec fn parse_unsigned(s: Seq<char>, max: nat) -> Option<nat> {
    let d = unsigned_digits(s);
    if d.len() > 0 && (forall|i: int| 0 <= i < d.len() ==> is_digit(d[i])) && digits_value(d)
        <= max {
        Some(digits_value(d))
    } else {
        None
    }
}

pub proof fn lemma_digits_value_prefix(s: Seq<char>, k: int)
    requires
        0 <= k <= s.len(),
        forall|i: int| 0 <= i < s.len() ==> is_digit(s[i]),
    ensures
        digits_value(s) >= digits_value(s.take(k)),
    decreases s.len(),
{
    if k < s.len() {
        assert(s.drop_last().take(k) =~= s.take(k));
        lemma_digits_value_prefix(s.drop_last(), k);
    } else {
        assert(s.take(k) =~= s);
    }
}

/// `u32::from_str` / `u64::from_str` for the type whose largest value is `max`.
pub fn parse_unsigned_exec(s: &[char], max: u64) -> (res: Option<u64>)
    ensures
        match res {
            Some(v) => parse_unsigned(s@, max as nat) == Some(v as nat),
            None => parse_unsigned(s@, max as nat) is None,
        },
{
    let start: usize = if s.len() > 0 && s[0] == '+' {
        1
    } else {
        0
    };
    let ghost d = unsigned_digits(s@);
    assert(d =~= s@.skip(start as int));
    if start >= s.len() {
        return None;
    }
    let mut v: u64 = 0;
    let mut i: usize = start;
    while i < s.len()
        invariant
            start <= i <= s.len(),
            d == unsigned_digits(s@),
            d =~= s@.skip(start as int),
            forall|k: int| 0 <= k < i - start ==> is_digit(d[k]),
            v as nat == digits_value(d.take(i - start)),
            v <= max,
        decreases s.len() - i,
    {
        let c = s[i];
        if !('0' <= c && c <= '9') {
            assert(d[i - start] == c);
            assert(!is_digit(d[i - start]));
            return None;
        }
        let next: u128 = (v as u128) * 10 + ((c as u32) - 48) as u128;
        assert(d.take(i + 1 - start).drop_last() =~= d.take(i - start));
        assert(d.take(i + 1 - start).last() == c);
        assert(digits_value(d.take(i + 1 - start)) == next as nat);
        if next > max as u128 {
            proof {
                assert(forall|k: int| 0 <= k < i + 1 - start ==> is_digit(d[k]));
                if forall|k: int| 0 <= k < d.len() ==> is_digit(d[k]) {
                    lemma_digits_value_prefix(d, i + 1 - start);
                }
            }
            return None;
        }
        v = next as u64;
        i = i + 1;
    }
    assert(d.take(i - start) =~= d);
    Some(v)
}

/// `decimal` is read back by `parse_unsigned`.
pub proof fn lemma_parse_decimal(n: nat, max: nat)
    requires
        n <= max,
    ensures
        parse_unsigned(decimal(n), max) == Some(n),
{
    lemma_decimal_digits(n);
}

/// The decimal form of a number is a non-empty run of digits worth it.
pub proof fn lemma_decimal_digits(n: nat)
    ensures
        decimal(n).len() > 0,
        decimal(n)[0] != '+',
        forall|i: int| 0 <= i < decimal(n).len() ==> is_digit(decimal(n)[i]),
        digits_value(decimal(n)) == n,
    decreases n,
{
    if n < 10 {
        assert((digit_char(n) as u32) == n + 48);
        assert(decimal(n).drop_last() =~= Seq::<char>::empty());
        assert(digits_value(Seq::<char>::empty()) == 0);
    }
    if n >= 10 {
        lemma_decimal_digits(n / 10);
        let d = decimal(n);
        assert(d.drop_last() =~= decimal(n / 10));
        assert(d.last() == digit_char(n % 10));
        assert((digit_char(n % 10) as u32) == n % 10 + 48);
        assert(digits_value(d) == digits_value(decimal(n / 10)) * 10 + n % 10);
        assert(n == (n / 10) * 10 + n % 10);
        assert forall|i: int| 0 <= i < d.len() implies is_digit(d[i]) by {
            if i < d.len() - 1 {
                assert(d[i] == decimal(n / 10)[i]);
            }
        }
    }
}

// ---------------------------------------------------------------- ordering

/// The order of `String`'s `Ord`: byte-wise on UTF-8, which is the order of
/// code points, compared lexicographically; a proper prefix comes first.
pub open spec fn text_lt(a: Seq<char>, b: Seq<char>) -> bool
    decreases a.len(),
{
    if a.len() == 0 {
        b.len() > 0
    } else if b.len() == 0 {
        false
    } else if a[0] < b[0] {
        true
    } else if a[0] == b[0] {
        text_lt(a.drop_first(), b.drop_first())
    } else {
        false
    }
}

pub proof fn lemma_text_lt_irreflexive(a: Seq<char>)
    ensures
        !text_lt(a, a),
    decreases a.len(),
{
    if a.len() > 0 {
        lemma_text_lt_irreflexive(a.drop_first());
    }
}

pub proof fn lemma_text_lt_transitive(a: Seq<char>, b: Seq<char>, c: Seq<char>)
    requires
        text_lt(a, b),
        text_lt(b, c),
    ensures
        text_lt(a, c),
    decreases a.len(),
{
    if a.len() > 0 && b.len() > 0 && c.len() > 0 && a[0] == b[0] && b[0] == c[0] {
        lemma_text_lt_transitive(a.drop_first(), b.drop_first(), c.drop_first());
    }
}

pub proof fn lemma_text_lt_total(a: Seq<char>, b: Seq<char>)
    requires
        a != b,
    ensures
        text_lt(a, b) || text_lt(b, a),
    decreases a.len(),
{
    if a.len() > 0 && b.len() > 0 && a[0] == b[0] {
        if a.drop_first() == b.drop_first() {
            assert(a =~= seq![a[0]] + a.drop_first());
            assert(b =~= seq![b[0]] + b.drop_first());
        }
        lemma_text_lt_total(a.drop_first(), b.drop_first());
    }
    if a.len() == 0 && b.len() == 0 {
        assert(a =~= b);
    }
}

/// Whether `a` comes before `b` in `String` order.
pub fn text_lt_exec(a: &[char], b: &[char]) -> (res: bool)
    ensures
        res == text_lt(a@, b@),
{
    let mut i: usize = 0;
    assert(a@.skip(0) =~= a@);
    assert(b@.skip(0) =~= b@);
    while i < a.len() && i < b.len() && a[i] == b[i]
        invariant
            i <= a.len(),
            i <= b.len(),
            text_lt(a@, b@) == text_lt(a@.skip(i as int), b@.skip(i as int)),
        decreases a.len() - i,
    {
        assert(a@.skip(i as int).drop_first() =~= a@.skip(i + 1));
        assert(b@.skip(i as int).drop_first() =~= b@.skip(i + 1));
        i = i + 1;
    }
    if i == a.len() {
        i < b.len()
    } else if i == b.len() {
        false
    } else {
        a[i] < b[i]
    }
}

} // verus!

//! Character-level text handling: line splitting, whitespace, comments,
//! tokens and decimal numbers.

use vstd::prelude::*;

verus! {

/// Copies the characters of `s` into a vector.
pub fn chars_of(s: &str) -> (v: Vec<char>)
    ensures
        v@ == s@,
{
    let mut v: Vec<char> = Vec::new();
    for c in it: s.chars()
        invariant
            v@ == it.seq().take(it.index()),
            it.seq() == s@,
    {
        v.push(c);
    }
    v
}


/// Unicode `White_Space`, the set that `char::is_whitespace` accepts.
pub open spec fn is_ws(c: char) -> bool {
    let u: u32 = c as u32;
    ||| 9 <= u <= 13
    ||| u == 32
    ||| u == 0x85
    ||| u == 0xA0
    ||| u == 0x1680
    ||| 0x2000 <= u <= 0x200A
    ||| u == 0x2028
    ||| u == 0x2029
    ||| u == 0x202F
    ||| u == 0x205F
    ||| u == 0x3000
}

/// Decides `is_ws`.
pub fn is_whitespace(c: char) -> (b: bool)
    ensures
        b == is_ws(c),
{
    let u: u32 = c as u32;
    (9 <= u && u <= 13) || u == 32 || u == 0x85 || u == 0xA0 || u == 0x1680 || (0x2000 <= u && u
        <= 0x200A) || u == 0x2028 || u == 0x2029 || u == 0x202F || u == 0x205F || u == 0x3000
}

/// The lines of `t`, split at every `'\n'`, line ends removed. A text ending in
/// `'\n'` has an empty last line; so does the empty text.
pub open spec fn lines(t: Seq<char>) -> Seq<Seq<char>>
    decreases t.len(),
{
    if t.len() == 0 {
        seq![Seq::empty()]
    } else {
        let prev = lines(t.drop_last());
        if t.last() == '\n' {
            prev.push(Seq::empty())
        } else {
            prev.update(prev.len() - 1, prev.last().push(t.last()))
        }
    }
}

/// The deep view of a vector of characters is its view.
pub proof fn lemma_chars_deep_view(v: Vec<char>)
    ensures
        v.deep_view() == v@,
{
    assert(v.deep_view() =~= v@);
}

/// A text of `n` characters has between 1 and `n + 1` lines.
pub proof fn lemma_lines_len(t: Seq<char>)
    ensures
        1 <= lines(t).len() <= t.len() + 1,
    decreases t.len(),
{
    if t.len() > 0 {
        lemma_lines_len(t.drop_last());
    }
}

/// Splits `t` into its lines (see `lines`).
pub fn split_lines(t: &Vec<char>) -> (r: Vec<Vec<char>>)
    ensures
        r.deep_view() == lines(t@),
{
    let mut done: Vec<Vec<char>> = Vec::new();
    let mut cur: Vec<char> = Vec::new();
    let mut i: usize = 0;
    while i < t.len()
        invariant
            i <= t.len(),
            done.deep_view().push(cur@) == lines(t@.take(i as int)),
        decreases t.len() - i,
    {
        proof {
            assert(t@.take(i + 1).drop_last() =~= t@.take(i as int));
            lemma_lines_len(t@.take(i as int));
        }
        let c = t[i];
        let ghost old_done = done.deep_view();
        let ghost old_cur = cur@;
        if c == '\n' {
            let line = cur;
            proof {
                lemma_chars_deep_view(line);
            }
            done.push(line);
            assert(done.deep_view() =~= old_done.push(old_cur));
            cur = Vec::new();
        } else {
            cur.push(c);
            assert(done.deep_view() =~= old_done);
        }
        i = i + 1;
        proof {
            assert(done.deep_view().push(cur@) =~= lines(t@.take(i as int)));
        }
    }
    assert(t@.take(i as int) =~= t@);
    let ghost old_done = done.deep_view();
    proof {
        lemma_chars_deep_view(cur);
    }
    let ghost last = cur@;
    done.push(cur);
    assert(done.deep_view() =~= old_done.push(last));
    done
}


/// Index of the first character at or after `i` that is not whitespace
/// (`s.len()` where there is none).
pub open spec fn skip_ws(s: Seq<char>, i: int) -> int
    decreases s.len() - i,
{
    if i < 0 || i >= s.len() || !is_ws(s[i]) {
        i
    } else {
        skip_ws(s, i + 1)
    }
}

/// Going down from `j`, the end of `s[..j]` once trailing whitespace is
/// dropped, never below `lo`.
pub open spec fn back_ws(s: Seq<char>, j: int, lo: int) -> int
    decreases j,
{
    if j <= 0 || j <= lo || !is_ws(s[j - 1]) {
        j
    } else {
        back_ws(s, j - 1, lo)
    }
}

/// `s` without leading and trailing whitespace (`str::trim`).
pub open spec fn trim(s: Seq<char>) -> Seq<char> {
    let a = skip_ws(s, 0);
    s.subrange(a, back_ws(s, s.len() as int, a))
}

/// A line comment, `//`, starts at index `k` of `t`.
pub open spec fn comment_at(t: Seq<char>, k: int) -> bool {
    0 <= k && k + 1 < t.len() && t[k] == '/' && t[k + 1] == '/'
}

/// Index of the first `//` at or after `k` in `t` (`t.len()` where there is none).
pub open spec fn find_comment(t: Seq<char>, k: int) -> int
    decreases t.len() - k,
{
    if k < 0 || k >= t.len() {
        t.len() as int
    } else if comment_at(t, k) {
        k
    } else {
        find_comment(t, k + 1)
    }
}

/// What remains of a source line once it is trimmed and a `//` comment is cut
/// off: `None` for a line that holds no command.
pub open spec fn strip_spec(line: Seq<char>) -> Option<Seq<char>> {
    let t = trim(line);
    let c = t.take(find_comment(t, 0));
    if c.len() == 0 {
        None
    } else {
        Some(c)
    }
}

proof fn lemma_skip_ws_bounds(s: Seq<char>, i: int)
    requires
        0 <= i <= s.len(),
    ensures
        i <= skip_ws(s, i) <= s.len(),
        skip_ws(s, i) < s.len() ==> !is_ws(s[skip_ws(s, i)]),
    decreases s.len() - i,
{
    if i < s.len() && is_ws(s[i]) {
        lemma_skip_ws_bounds(s, i + 1);
    }
}

proof fn lemma_back_ws_bounds(s: Seq<char>, j: int, lo: int)
    requires
        0 <= lo <= j <= s.len(),
    ensures
        lo <= back_ws(s, j, lo) <= j,
        back_ws(s, j, lo) > lo ==> !is_ws(s[back_ws(s, j, lo) - 1]),
    decreases j,
{
    if j > 0 && j > lo && is_ws(s[j - 1]) {
        lemma_back_ws_bounds(s, j - 1, lo);
    }
}

proof fn lemma_find_comment_bounds(t: Seq<char>, k: int)
    requires
        0 <= k <= t.len(),
    ensures
        k <= find_comment(t, k) <= t.len(),
    decreases t.len() - k,
{
    if k < t.len() && !comment_at(t, k) {
        lemma_find_comment_bounds(t, k + 1);
    }
}

/// What `strip_spec` keeps of a line is not empty, starts with a character
/// that is not whitespace, and holds no `//`.
pub proof fn lemma_strip_shape(line: Seq<char>)
    ensures
        strip_spec(line) matches Some(c) ==> {
            &&& c.len() > 0
            &&& !is_ws(c[0])
            &&& forall|k: int| 0 <= k < c.len() - 1 ==> !comment_at(c, k)
        },
{
    let a = skip_ws(line, 0);
    lemma_skip_ws_bounds(line, 0);
    lemma_back_ws_bounds(line, line.len() as int, a);
    let t = trim(line);
    lemma_find_comment_bounds(t, 0);
    if let Some(c) = strip_spec(line) {
        assert(c[0] == line[a]);
        assert forall|k: int| 0 <= k < c.len() - 1 implies !comment_at(c, k) by {
            lemma_find_comment_first(t, 0, k);
        }
    }
}

proof fn lemma_find_comment_at(t: Seq<char>, k: int, e: int)
    requires
        0 <= k <= e <= t.len(),
        forall|q: int| k <= q < e ==> !comment_at(t, q),
        e == t.len() || comment_at(t, e),
    ensures
        find_comment(t, k) == e,
    decreases e - k,
{
    if k < e {
        lemma_find_comment_at(t, k + 1, e);
    }
}

/// What a command line keeps: a command `c` (not empty, without whitespace
/// at either end, without `//`, not ending in `/`) is kept whole, alone on its
/// line or followed by a comment.
pub proof fn lemma_strip_keeps_command(c: Seq<char>, r: Seq<char>)
    requires
        c.len() > 0,
        !is_ws(c[0]),
        !is_ws(c.last()),
        c.last() != '/',
        forall|k: int| 0 <= k < c.len() ==> !comment_at(c, k),
    ensures
        strip_spec(c) == Some(c),
        strip_spec(c + seq!['/', '/'] + r) == Some(c),
{
    assert(skip_ws(c, 0) == 0);
    assert(back_ws(c, c.len() as int, 0) == c.len());
    assert(trim(c) =~= c);
    lemma_find_comment_at(c, 0, c.len() as int);
    assert(c.take(c.len() as int) =~= c);
    let line = c + seq!['/', '/'] + r;
    assert(skip_ws(line, 0) == 0);
    let b = back_ws(line, line.len() as int, 0);
    lemma_back_ws_bounds(line, line.len() as int, 0);
    lemma_back_ws_stops(line, line.len() as int, (c.len() + 2) as int);
    let t = trim(line);
    assert(t == line.subrange(0, b));
    assert forall|q: int| 0 <= q < c.len() implies !comment_at(t, q) by {
        if q + 1 < c.len() {
            assert(!comment_at(c, q));
        }
    }
    assert(comment_at(t, c.len() as int));
    lemma_find_comment_at(t, 0, c.len() as int);
    assert(t.take(c.len() as int) =~= c);
}

proof fn lemma_back_ws_stops(s: Seq<char>, j: int, k: int)
    requires
        0 < k <= j <= s.len(),
        !is_ws(s[k - 1]),
    ensures
        back_ws(s, j, 0) >= k,
    decreases j,
{
    if j > k && is_ws(s[j - 1]) {
        lemma_back_ws_stops(s, j - 1, k);
    }
}

proof fn lemma_find_comment_first(t: Seq<char>, k: int, m: int)
    requires
        0 <= k <= m < find_comment(t, k),
    ensures
        !comment_at(t, m),
    decreases t.len() - k,
{
    if k < t.len() && !comment_at(t, k) && k < m {
        lemma_find_comment_first(t, k + 1, m);
    }
}

/// A copy of `v[lo..hi]`.
pub fn copy_range(v: &Vec<char>, lo: usize, hi: usize) -> (r: Vec<char>)
    requires
        lo <= hi <= v.len(),
    ensures
        r@ == v@.subrange(lo as int, hi as int),
{
    let mut r: Vec<char> = Vec::new();
    let mut i: usize = lo;
    while i < hi
        invariant
            lo <= i <= hi <= v.len(),
            r@ == v@.subrange(lo as int, i as int),
        decreases hi - i,
    {
        r.push(v[i]);
        i = i + 1;
        assert(r@ =~= v@.subrange(lo as int, i as int));
    }
    r
}

/// Trims `line` and cuts off a `//` comment; `None` where nothing is left.
pub fn strip_command(line: &Vec<char>) -> (r: Option<Vec<char>>)
    ensures
        match r {
            Some(c) => strip_spec(line@) == Some(c@),
            None => strip_spec(line@).is_none(),
        },
{
    let ghost s = line@;
    let n: usize = line.len();
    let mut a: usize = 0;
    while a < n && is_whitespace(line[a])
        invariant
            a <= n == s.len(),
            s == line@,
            skip_ws(s, 0) == skip_ws(s, a as int),
        decreases n - a,
    {
        a = a + 1;
    }
    assert(skip_ws(s, 0) == a);
    let mut b: usize = n;
    while b > a && is_whitespace(line[b - 1])
        invariant
            a <= b <= n == s.len(),
            s == line@,
            back_ws(s, n as int, a as int) == back_ws(s, b as int, a as int),
        decreases b,
    {
        b = b - 1;
    }
    assert(back_ws(s, n as int, a as int) == b);
    let ghost t = s.subrange(a as int, b as int);
    assert(trim(s) == t);
    let mut k: usize = a;
    while k < b && !(k + 1 < b && line[k] == '/' && line[k + 1] == '/')
        invariant
            a <= k <= b <= n == s.len(),
            s == line@,
            t == s.subrange(a as int, b as int),
            find_comment(t, 0) == find_comment(t, k - a),
        decreases b - k,
    {
        assert(!comment_at(t, k - a));
        k = k + 1;
    }
    assert(find_comment(t, 0) == k - a);
    if k == a {
        None
    } else {
        let c = copy_range(line, a, k);
        assert(c@ =~= t.take(k - a));
        Some(c)
    }
}

/// Completed tokens and the token being read, after reading all of `s`.
pub open spec fn token_state(s: Seq<char>) -> (Seq<Seq<char>>, Seq<char>)
    decreases s.len(),
{
    if s.len() == 0 {
        (Seq::empty(), Seq::empty())
    } else {
        let (d, c) = token_state(s.drop_last());
        let x = s.last();
        if is_ws(x) {
            if c.len() > 0 {
                (d.push(c), Seq::empty())
            } else {
                (d, Seq::empty())
            }
        } else {
            (d, c.push(x))
        }
    }
}

/// The maximal runs of non-whitespace characters of `s`, in order
/// (`str::split_whitespace`).
pub open spec fn tokens(s: Seq<char>) -> Seq<Seq<char>> {
    let (d, c) = token_state(s);
    if c.len() > 0 {
        d.push(c)
    } else {
        d
    }
}

proof fn lemma_token_state_nonempty(s: Seq<char>)
    requires
        s.len() > 0,
        !is_ws(s[0]),
    ensures
        token_state(s).0.len() > 0 || token_state(s).1.len() > 0,
    decreases s.len(),
{
    if s.len() > 1 {
        lemma_token_state_nonempty(s.drop_last());
    }
}

/// A text that starts with a character that is not whitespace has a token.
pub proof fn lemma_tokens_nonempty(s: Seq<char>)
    requires
        s.len() > 0,
        !is_ws(s[0]),
    ensures
        tokens(s).len() > 0,
{
    lemma_token_state_nonempty(s);
}

/// Splits `s` at whitespace into its tokens (see `tokens`).
pub fn split_whitespace(s: &Vec<char>) -> (r: Vec<Vec<char>>)
    ensures
        r.deep_view() == tokens(s@),
{
    let mut done: Vec<Vec<char>> = Vec::new();
    let mut cur: Vec<char> = Vec::new();
    let mut i: usize = 0;
    while i < s.len()
        invariant
            i <= s.len(),
            (done.deep_view(), cur@) == token_state(s@.take(i as int)),
        decreases s.len() - i,
    {
        proof {
            assert(s@.take(i + 1).drop_last() =~= s@.take(i as int));
        }
        let c = s[i];
        let ghost old_done = done.deep_view();
        let ghost old_cur = cur@;
        if is_whitespace(c) {
            if cur.len() > 0 {
                let tok = cur;
                proof {
                    lemma_chars_deep_view(tok);
                }
                done.push(tok);
                assert(done.deep_view() =~= old_done.push(old_cur));
                cur = Vec::new();
            } else {
                assert(cur@ =~= Seq::<char>::empty());
            }
        } else {
            cur.push(c);
        }
        i = i + 1;
    }
    assert(s@.take(i as int) =~= s@);
    if cur.len() > 0 {
        let ghost old_done = done.deep_view();
        proof {
            lemma_chars_deep_view(cur);
        }
        let ghost last = cur@;
        done.push(cur);
        assert(done.deep_view() =~= old_done.push(last));
    }
    done
}


/// Appends `c` to `s` by `String::push`, which, as std documents it, appends
/// the character to the end of the string.
#[verifier::external_body]
pub fn push_char(s: &mut String, c: char)
    ensures
        final(s)@ == old(s)@.push(c),
{
    s.push(c);
}

/// Appends the characters of `v` to `s`.
pub fn push_chars(s: &mut String, v: &Vec<char>)
    ensures
        final(s)@ == old(s)@ + v@,
{
    let mut i: usize = 0;
    while i < v.len()
        invariant
            i <= v.len(),
            s@ == old(s)@ + v@.take(i as int),
        decreases v.len() - i,
    {
        push_char(s, v[i]);
        i = i + 1;
        assert(s@ =~= old(s)@ + v@.take(i as int));
    }
    assert(v@.take(i as int) =~= v@);
}

/// A `String` holding the characters of `v`.
pub fn string_of(v: &Vec<char>) -> (s: String)
    ensures
        s@ == v@,
{
    let mut s = String::new();
    push_chars(&mut s, v);
    assert(s@ =~= v@);
    s
}

/// Whether `v` holds exactly the characters of `lit`.
pub fn chars_eq(v: &Vec<char>, lit: &str) -> (b: bool)
    ensures
        b == (v@ == lit@),
{
    let w = chars_of(lit);
    if v.len() != w.len() {
        return false;
    }
    let mut i: usize = 0;
    while i < v.len()
        invariant
            i <= v.len() == w.len(),
            w@ == lit@,
            forall|j: int| 0 <= j < i ==> v@[j] == w@[j],
        decreases v.len() - i,
    {
        if v[i] != w[i] {
            return false;
        }
        i = i + 1;
    }
    assert(v@ =~= w@);
    true
}


/// The index of the last `.` of `s` before index `j` (-1 where there is none).
pub open spec fn last_dot(s: Seq<char>, j: int) -> int
    decreases j,
{
    if j <= 0 {
        -1
    } else if s[j - 1] == '.' {
        j - 1
    } else {
        last_dot(s, j - 1)
    }
}

/// The file name `name` has the extension `vm`, as `Path::extension` reads
/// it: the text after the last `.`, where that `.` is not the first
/// character.
pub open spec fn vm_extension(name: Seq<char>) -> bool {
    let k = last_dot(name, name.len() as int);
    k > 0 && name.skip(k + 1) == seq!['v', 'm']
}

/// Whether the file name `file_name` has the extension `vm`, which marks
/// the VM source files of a directory.
pub fn is_vm_source(file_name: &str) -> (r: bool)
    ensures
        r == vm_extension(file_name@),
{
    let s = chars_of(file_name);
    let mut j: usize = s.len();
    while j > 0 && s[j - 1] != '.'
        invariant
            j <= s.len(),
            s@ == file_name@,
            last_dot(s@, s.len() as int) == last_dot(s@, j as int),
        decreases j,
    {
        j = j - 1;
    }
    if j <= 1 {
        return false;
    }
    let k = j - 1;
    assert(last_dot(s@, s.len() as int) == k);
    if s.len() - k - 1 != 2 {
        assert(s@.skip(k + 1).len() != 2);
        return false;
    }
    let r = s[k + 1] == 'v' && s[k + 2] == 'm';
    assert(r ==> s@.skip(k + 1) =~= seq!['v', 'm']);
    assert(s@.skip(k + 1) == seq!['v', 'm'] ==> s@.skip(k + 1)[0] == 'v' && s@.skip(k + 1)[1] == 'm');
    r
}

} // verus!

use vstd::prelude::*;

verus! {

// ---------------------------------------------------------------------------
// Pattern scaffolding: occurrences of a fixed character pattern in a text.
// ---------------------------------------------------------------------------

/// `p` occurs in `s` starting exactly at position `i`.
pub open spec fn contains_at(s: Seq<char>, i: int, p: Seq<char>) -> bool {
    0 <= i && i + p.len() <= s.len() && s.subrange(i, i + p.len() as int) == p
}

/// `p` occurs somewhere in `s`.
pub open spec fn contains_pat(s: Seq<char>, p: Seq<char>) -> bool {
    exists|i: int| contains_at(s, i, p)
}

/// The opening of a self-referential anchor tag: a fragment link whose
/// target lies within the same document.
pub open spec fn anchor_open() -> Seq<char> {
    seq!['<', 'a', ' ', 'h', 'r', 'e', 'f', '=', '"', '#']
}

/// The stray link label left behind by section edit links.
pub open spec fn edit_label() -> Seq<char> {
    seq!['e', 'd', 'i', 't']
}

/// The start of a bare URL.
pub open spec fn url_prefix() -> Seq<char> {
    seq!['h', 't', 't', 'p', 's', ':', '/', '/']
}

/// The table-of-contents marker heading.
pub open spec fn contents_marker() -> Seq<char> {
    seq!['#', '#', ' ', 'C', 'o', 'n', 't', 'e', 'n', 't', 's']
}

/// The start of a top-level heading in rendered text.
pub open spec fn heading_marker() -> Seq<char> {
    seq!['#', '#', ' ']
}

/// A decimal digit.
pub open spec fn is_digit(c: char) -> bool {
    48 <= c as u32 && c as u32 <= 57
}

/// The whitespace the residue pass recognises.
pub open spec fn is_space(c: char) -> bool {
    c == ' ' || c == '\n' || c == '\t' || c == '\r'
}

proof fn lemma_skip_succ(s: Seq<char>, i: int)
    requires
        0 <= i < s.len(),
    ensures
        s.skip(i).drop_first() == s.skip(i + 1),
{
    assert(s.skip(i).drop_first() =~= s.skip(i + 1));
}

proof fn lemma_skip_skip(s: Seq<char>, a: int, b: int)
    requires
        0 <= a,
        0 <= b,
        a + b <= s.len(),
    ensures
        s.skip(a).skip(b) == s.skip(a + b),
{
    assert(s.skip(a).skip(b) =~= s.skip(a + b));
}

/// An occurrence at `i` in `s` is an occurrence at `i - a` in `s.skip(a)`.
proof fn lemma_pat_at_skip(s: Seq<char>, a: int, i: int, p: Seq<char>)
    requires
        0 <= a <= i,
        i <= s.len(),
    ensures
        contains_at(s, i, p) == contains_at(s.skip(a), i - a, p),
{
    if i + p.len() <= s.len() {
        assert(s.skip(a).subrange(i - a, i - a + p.len() as int) =~= s.subrange(
            i,
            i + p.len() as int,
        ));
    }
}

/// An occurrence in the tail is an occurrence one later in the whole.
proof fn lemma_pat_at_shift(s: Seq<char>, i: int, p: Seq<char>)
    requires
        s.len() > 0,
        0 <= i,
    ensures
        contains_at(s.drop_first(), i, p) == contains_at(s, i + 1, p),
{
    if 0 <= i && i + p.len() <= s.len() - 1 {
        assert(s.drop_first().subrange(i, i + p.len() as int) =~= s.subrange(
            i + 1,
            i + 1 + p.len() as int,
        ));
    }
}

// ---------------------------------------------------------------------------
// Exec pattern matching.
// ---------------------------------------------------------------------------

/// Whether `pat` occurs in `v` starting exactly at `i`.
fn match_at(v: &Vec<char>, i: usize, pat: &Vec<char>) -> (b: bool)
    requires
        i <= v@.len(),
    ensures
        b == contains_at(v@, i as int, pat@),
{
    let n = v.len();
    let plen = pat.len();
    if n - i < plen {
        return false;
    }
    let mut j: usize = 0;
    while j < plen
        invariant
            n == v@.len(),
            plen == pat@.len(),
            i + plen <= n,
            j <= plen,
            forall|m: int| 0 <= m < j ==> v@[i + m] == pat@[m],
        decreases plen - j,
    {
        if v[i + j] != pat[j] {
            proof {
                assert(v@.subrange(i as int, i + pat@.len() as int)[j as int] == v@[i + j]);
            }
            return false;
        }
        j += 1;
    }
    proof {
        assert(v@.subrange(i as int, i + pat@.len() as int) =~= pat@);
    }
    true
}

fn anchor_open_vec() -> (p: Vec<char>)
    ensures
        p@ == anchor_open(),
{
    let mut p: Vec<char> = Vec::new();
    p.push('<');
    p.push('a');
    p.push(' ');
    p.push('h');
    p.push('r');
    p.push('e');
    p.push('f');
    p.push('=');
    p.push('"');
    p.push('#');
    proof {
        assert(p@ =~= anchor_open());
    }
    p
}

fn edit_label_vec() -> (p: Vec<char>)
    ensures
        p@ == edit_label(),
{
    let mut p: Vec<char> = Vec::new();
    p.push('e');
    p.push('d');
    p.push('i');
    p.push('t');
    proof {
        assert(p@ =~= edit_label());
    }
    p
}

fn url_prefix_vec() -> (p: Vec<char>)
    ensures
        p@ == url_prefix(),
{
    let mut p: Vec<char> = Vec::new();
    p.push('h');
    p.push('t');
    p.push('t');
    p.push('p');
    p.push('s');
    p.push(':');
    p.push('/');
    p.push('/');
    proof {
        assert(p@ =~= url_prefix());
    }
    p
}

fn contents_marker_vec() -> (p: Vec<char>)
    ensures
        p@ == contents_marker(),
{
    let mut p: Vec<char> = Vec::new();
    p.push('#');
    p.push('#');
    p.push(' ');
    p.push('C');
    p.push('o');
    p.push('n');
    p.push('t');
    p.push('e');
    p.push('n');
    p.push('t');
    p.push('s');
    proof {
        assert(p@ =~= contents_marker());
    }
    p
}

fn heading_marker_vec() -> (p: Vec<char>)
    ensures
        p@ == heading_marker(),
{
    let mut p: Vec<char> = Vec::new();
    p.push('#');
    p.push('#');
    p.push(' ');
    proof {
        assert(p@ =~= heading_marker());
    }
    p
}

fn digit(c: char) -> (b: bool)
    ensures
        b == is_digit(c),
{
    let u = c as u32;
    48 <= u && u <= 57
}

fn space(c: char) -> (b: bool)
    ensures
        b == is_space(c),
{
    c == ' ' || c == '\n' || c == '\t' || c == '\r'
}

// ---------------------------------------------------------------------------
// Step: strip self-referential anchor tags from raw hypertext.
// ---------------------------------------------------------------------------

/// Text with self-referential anchor open-tags removed: from each
/// `<a href="#` on, everything through the closing `>` goes; `in_tag` says
/// whether the scan stands inside such a tag.
pub open spec fn strip_anchors_rec(s: Seq<char>, in_tag: bool) -> Seq<char>
    decreases s.len(),
{
    if s.len() == 0 {
        Seq::empty()
    } else if in_tag {
        if s[0] == '>' {
            strip_anchors_rec(s.drop_first(), false)
        } else {
            strip_anchors_rec(s.drop_first(), true)
        }
    } else if contains_at(s, 0, anchor_open()) {
        strip_anchors_rec(s.drop_first(), true)
    } else {
        seq![s[0]] + strip_anchors_rec(s.drop_first(), false)
    }
}

/// The first pipeline step on raw hypertext.
pub open spec fn strip_anchors_spec(s: Seq<char>) -> Seq<char> {
    strip_anchors_rec(s, false)
}

/// Remove every self-referential anchor open-tag (`<a href="#` ... `>`)
/// from raw hypertext.
pub fn strip_anchor_tags(v: &Vec<char>) -> (r: Vec<char>)
    ensures
        r@ == strip_anchors_spec(v@),
{
    let pat = anchor_open_vec();
    let mut out: Vec<char> = Vec::new();
    let mut in_tag = false;
    let mut i: usize = 0;
    proof {
        assert(v@.skip(0) =~= v@);
        assert(out@ + strip_anchors_rec(v@, false) =~= strip_anchors_rec(v@, false));
    }
    while i < v.len()
        invariant
            i <= v@.len(),
            pat@ == anchor_open(),
            strip_anchors_spec(v@) == out@ + strip_anchors_rec(v@.skip(i as int), in_tag),
        decreases v@.len() - i,
    {
        proof {
            lemma_skip_succ(v@, i as int);
        }
        if in_tag {
            if v[i] == '>' {
                in_tag = false;
            }
            i += 1;
        } else if match_at(v, i, &pat) {
            proof {
                lemma_pat_at_skip(v@, i as int, i as int, pat@);
            }
            in_tag = true;
            i += 1;
        } else {
            proof {
                lemma_pat_at_skip(v@, i as int, i as int, pat@);
                assert(out@.push(v@[i as int]) + strip_anchors_rec(v@.skip(i as int + 1), false)
                    =~= out@ + (seq![v@[i as int]] + strip_anchors_rec(
                    v@.skip(i as int + 1),
                    false,
                )));
            }
            out.push(v[i]);
            i += 1;
        }
    }
    proof {
        assert(v@.skip(v@.len() as int) =~= Seq::<char>::empty());
        assert(out@ + Seq::<char>::empty() =~= out@);
    }
    out
}

// ---------------------------------------------------------------------------
// Step: strip citation markers, edit labels, stray brackets and bare URLs.
// ---------------------------------------------------------------------------

/// The run of decimal digits at the head of `s`.
pub open spec fn digits_len(s: Seq<char>) -> nat
    decreases s.len(),
{
    if s.len() == 0 {
        0
    } else if is_digit(s[0]) {
        (1 + digits_len(s.drop_first())) as nat
    } else {
        0
    }
}

/// Text with markup artifacts removed: a bracketed citation marker
/// (`[` digits `]`) goes whole; a stray `[` or `]` goes alone; every
/// occurrence of `edit` goes; a bare URL goes from `https://` up to the
/// next whitespace. `in_url` says whether the scan stands inside a URL.
pub open spec fn strip_markup_rec(s: Seq<char>, in_url: bool) -> Seq<char>
    decreases s.len(),
{
    if s.len() == 0 {
        Seq::empty()
    } else if in_url {
        if is_space(s[0]) {
            seq![s[0]] + strip_markup_rec(s.drop_first(), false)
        } else {
            strip_markup_rec(s.drop_first(), true)
        }
    } else if s[0] == '[' {
        let d = digits_len(s.drop_first()) as int;
        if 1 + d < s.len() && s[1 + d] == ']' {
            strip_markup_rec(s.skip(2 + d), false)
        } else {
            strip_markup_rec(s.drop_first(), false)
        }
    } else if s[0] == ']' {
        strip_markup_rec(s.drop_first(), false)
    } else if contains_at(s, 0, edit_label()) {
        strip_markup_rec(s.skip(edit_label().len() as int), false)
    } else if contains_at(s, 0, url_prefix()) {
        strip_markup_rec(s.skip(url_prefix().len() as int), true)
    } else {
        seq![s[0]] + strip_markup_rec(s.drop_first(), false)
    }
}

/// The markup-stripping pipeline step.
pub open spec fn strip_markup_spec(s: Seq<char>) -> Seq<char> {
    strip_markup_rec(s, false)
}

/// The end of the run of decimal digits in `v` that starts at `from`.
fn digit_run(v: &Vec<char>, from: usize) -> (j: usize)
    requires
        from <= v@.len(),
    ensures
        from <= j <= v@.len(),
        j - from == digits_len(v@.skip(from as int)),
{
    let n = v.len();
    let mut j = from;
    while j < n
        invariant
            from <= j <= n,
            n == v@.len(),
            digits_len(v@.skip(from as int)) == j - from + digits_len(v@.skip(j as int)),
        decreases n - j,
    {
        if !digit(v[j]) {
            proof {
                assert(digits_len(v@.skip(j as int)) == 0);
            }
            return j;
        }
        proof {
            lemma_skip_succ(v@, j as int);
        }
        j += 1;
    }
    proof {
        assert(v@.skip(j as int) =~= Seq::<char>::empty());
    }
    j
}

/// Remove bracketed citation markers, stray `edit` link labels, stray
/// square brackets and bare URLs from rendered plain text.
pub fn strip_markup(v: &Vec<char>) -> (r: Vec<char>)
    ensures
        r@ == strip_markup_spec(v@),
{
    let edit_pat = edit_label_vec();
    let url_pat = url_prefix_vec();
    let mut out: Vec<char> = Vec::new();
    let mut in_url = false;
    let mut i: usize = 0;
    proof {
        assert(v@.skip(0) =~= v@);
        assert(out@ + strip_markup_rec(v@, false) =~= strip_markup_rec(v@, false));
    }
    while i < v.len()
        invariant
            i <= v@.len(),
            edit_pat@ == edit_label(),
            url_pat@ == url_prefix(),
            strip_markup_spec(v@) == out@ + strip_markup_rec(v@.skip(i as int), in_url),
        decreases v@.len() - i,
    {
        let n = v.len();
        proof {
            lemma_skip_succ(v@, i as int);
        }
        let c = v[i];
        if in_url {
            if space(c) {
                proof {
                    assert(out@.push(v@[i as int]) + strip_markup_rec(v@.skip(i as int + 1), false)
                        =~= out@ + (seq![v@[i as int]] + strip_markup_rec(
                        v@.skip(i as int + 1),
                        false,
                    )));
                }
                out.push(c);
                in_url = false;
                i += 1;
            } else {
                i += 1;
            }
        } else if c == '[' {
            let j = digit_run(v, i + 1);
            if j < n && v[j] == ']' {
                proof {
                    lemma_skip_skip(v@, i as int, j + 1 - i as int);
                }
                i = j + 1;
            } else {
                i += 1;
            }
        } else if c == ']' {
            i += 1;
        } else if match_at(v, i, &edit_pat) {
            proof {
                lemma_pat_at_skip(v@, i as int, i as int, edit_pat@);
                lemma_skip_skip(v@, i as int, 4);
            }
            i += 4;
        } else if match_at(v, i, &url_pat) {
            proof {
                lemma_pat_at_skip(v@, i as int, i as int, url_pat@);
                lemma_skip_skip(v@, i as int, 8);
            }
            in_url = true;
            i += 8;
        } else {
            proof {
                lemma_pat_at_skip(v@, i as int, i as int, edit_pat@);
                lemma_pat_at_skip(v@, i as int, i as int, url_pat@);
                assert(out@.push(v@[i as int]) + strip_markup_rec(v@.skip(i as int + 1), false)
                    =~= out@ + (seq![v@[i as int]] + strip_markup_rec(
                    v@.skip(i as int + 1),
                    false,
                )));
            }
            out.push(c);
            i += 1;
        }
    }
    proof {
        assert(v@.skip(v@.len() as int) =~= Seq::<char>::empty());
        assert(out@ + Seq::<char>::empty() =~= out@);
    }
    out
}

// ---------------------------------------------------------------------------
// Step: strip digit-plus-whitespace residues.
// ---------------------------------------------------------------------------

/// Text with the residues of citation stripping removed: every decimal
/// digit that stands directly before whitespace goes together with that
/// whitespace character.
pub open spec fn strip_residues_spec(s: Seq<char>) -> Seq<char>
    decreases s.len(),
{
    if s.len() == 0 {
        Seq::empty()
    } else if s.len() >= 2 && is_digit(s[0]) && is_space(s[1]) {
        strip_residues_spec(s.skip(2))
    } else {
        seq![s[0]] + strip_residues_spec(s.drop_first())
    }
}

/// Remove the single-digit-plus-space residues left by citation stripping.
pub fn strip_residues(v: &Vec<char>) -> (r: Vec<char>)
    ensures
        r@ == strip_residues_spec(v@),
{
    let mut out: Vec<char> = Vec::new();
    let mut i: usize = 0;
    proof {
        assert(v@.skip(0) =~= v@);
        assert(out@ + strip_residues_spec(v@) =~= strip_residues_spec(v@));
    }
    while i < v.len()
        invariant
            i <= v@.len(),
            strip_residues_spec(v@) == out@ + strip_residues_spec(v@.skip(i as int)),
        decreases v@.len() - i,
    {
        let n = v.len();
        proof {
            lemma_skip_succ(v@, i as int);
        }
        let c = v[i];
        if i + 1 < n && digit(c) && space(v[i + 1]) {
            proof {
                lemma_skip_skip(v@, i as int, 2);
            }
            i += 2;
        } else {
            proof {
                assert(out@.push(v@[i as int]) + strip_residues_spec(v@.skip(i as int + 1)) =~= out@
                    + (seq![v@[i as int]] + strip_residues_spec(v@.skip(i as int + 1))));
            }
            out.push(c);
            i += 1;
        }
    }
    proof {
        assert(v@.skip(v@.len() as int) =~= Seq::<char>::empty());
        assert(out@ + Seq::<char>::empty() =~= out@);
    }
    out
}

// ---------------------------------------------------------------------------
// Step: collapse the table-of-contents block.
// ---------------------------------------------------------------------------

/// The position of the first occurrence of `p` in `s`, if any.
pub open spec fn find_pat(s: Seq<char>, p: Seq<char>) -> Option<int>
    decreases s.len(),
{
    if contains_at(s, 0, p) {
        Some(0)
    } else if s.len() == 0 {
        None
    } else {
        match find_pat(s.drop_first(), p) {
            Some(i) => Some(i + 1),
            None => None,
        }
    }
}

/// What `find_pat` returns: the first occurrence, or proof that none exists.
proof fn lemma_find_pat_props(s: Seq<char>, p: Seq<char>)
    ensures
        (find_pat(s, p) matches Some(i) ==> 0 <= i && contains_at(s, i, p) && forall|j: int|
            0 <= j < i ==> !contains_at(s, j, p)),
        (find_pat(s, p) is None ==> forall|j: int| !contains_at(s, j, p)),
    decreases s.len(),
{
    if contains_at(s, 0, p) {
    } else if s.len() == 0 {
        assert forall|j: int| !contains_at(s, j, p) by {
            if 0 < j {
                assert(j + p.len() > s.len());
            }
        }
    } else {
        lemma_find_pat_props(s.drop_first(), p);
        assert forall|j: int| 1 <= j implies #[trigger] contains_at(s, j, p) == contains_at(
            s.drop_first(),
            j - 1,
            p,
        ) by {
            lemma_pat_at_shift(s, j - 1, p);
        }
    }
}

/// `find_pat` answers `Some(i)` exactly when `i` is an occurrence with none
/// before it.
proof fn lemma_find_pat_exact(s: Seq<char>, p: Seq<char>, i: int)
    requires
        contains_at(s, i, p),
        forall|j: int| 0 <= j < i ==> !contains_at(s, j, p),
    ensures
        find_pat(s, p) == Some(i),
{
    lemma_find_pat_props(s, p);
    if find_pat(s, p) is None {
        assert(!contains_at(s, i, p));
    } else {
        let i0 = find_pat(s, p)->Some_0;
        if i0 < i {
            assert(!contains_at(s, i0, p));
        }
        if i < i0 {
            assert(!contains_at(s, i, p));
        }
    }
}

/// The position in `v`, at or after `from`, where `pat` first occurs.
fn find_pattern(v: &Vec<char>, from: usize, pat: &Vec<char>) -> (r: Option<usize>)
    requires
        from <= v@.len(),
        pat@.len() > 0,
    ensures
        (r matches Some(i) ==> from <= i && i + pat@.len() <= v@.len() && find_pat(
            v@.skip(from as int),
            pat@,
        ) == Some(i - from)),
        (r is None ==> find_pat(v@.skip(from as int), pat@) is None),
{
    let n = v.len();
    let mut i = from;
    while i < n
        invariant
            from <= i <= n,
            n == v@.len(),
            forall|j: int| from <= j < i ==> !contains_at(v@, j, pat@),
        decreases n - i,
    {
        if match_at(v, i, pat) {
            proof {
                assert forall|j: int| 0 <= j < i - from implies !contains_at(
                    v@.skip(from as int),
                    j,
                    pat@,
                ) by {
                    lemma_pat_at_skip(v@, from as int, j + from, pat@);
                }
                lemma_pat_at_skip(v@, from as int, i as int, pat@);
                lemma_find_pat_exact(v@.skip(from as int), pat@, i - from);
            }
            return Some(i);
        }
        i += 1;
    }
    proof {
        assert forall|j: int| !contains_at(v@.skip(from as int), j, pat@) by {
            if 0 <= j && j + pat@.len() <= v@.len() - from {
                lemma_pat_at_skip(v@, from as int, j + from, pat@);
            }
        }
        lemma_find_pat_props(v@.skip(from as int), pat@);
        match find_pat(v@.skip(from as int), pat@) {
            Some(i0) => {
                assert(!contains_at(v@.skip(from as int), i0, pat@));
            },
            None => {},
        }
    }
    None
}

/// Text with the table-of-contents block collapsed: everything from the
/// `## Contents` marker up to (but not including) the next top-level
/// heading goes; with no marker, or no heading after it, the text stays
/// unmodified from that point forward.
pub open spec fn contents_removed(s: Seq<char>) -> Seq<char> {
    match find_pat(s, contents_marker()) {
        None => s,
        Some(i) => match find_pat(s.skip(i + contents_marker().len() as int), heading_marker()) {
            None => s,
            Some(k) => s.subrange(0, i) + s.skip(i + contents_marker().len() + k),
        },
    }
}

/// Append `v[a..b]` to `out`.
fn push_range(out: &mut Vec<char>, v: &Vec<char>, a: usize, b: usize)
    requires
        a <= b <= v@.len(),
    ensures
        final(out)@ == old(out)@ + v@.subrange(a as int, b as int),
{
    let mut i = a;
    proof {
        assert(old(out)@ + v@.subrange(a as int, a as int) =~= old(out)@);
    }
    while i < b
        invariant
            a <= i <= b <= v@.len(),
            out@ == old(out)@ + v@.subrange(a as int, i as int),
        decreases b - i,
    {
        out.push(v[i]);
        proof {
            assert(old(out)@ + v@.subrange(a as int, i as int) + seq![v@[i as int]] =~= old(out)@
                + v@.subrange(a as int, i as int + 1));
        }
        i += 1;
    }
}

/// Collapse the table-of-contents block out of the readable body; with no
/// marker heading, or no top-level heading after it, the text is left
/// unmodified from that point forward.
pub fn remove_contents_section(v: &Vec<char>) -> (r: Vec<char>)
    ensures
        r@ == contents_removed(v@),
{
    let n = v.len();
    let marker = contents_marker_vec();
    let heading = heading_marker_vec();
    match find_pattern(v, 0, &marker) {
        None => {
            let mut out: Vec<char> = Vec::new();
            push_range(&mut out, v, 0, n);
            proof {
                assert(v@.skip(0) =~= v@);
                assert(out@ =~= v@);
            }
            out
        },
        Some(i) => {
            proof {
                assert(v@.skip(0) =~= v@);
            }
            let start = i + marker.len();
            match find_pattern(v, start, &heading) {
                None => {
                    let mut out: Vec<char> = Vec::new();
                    push_range(&mut out, v, 0, n);
                    proof {
                        assert(out@ =~= v@);
                    }
                    out
                },
                Some(j) => {
                    let mut out: Vec<char> = Vec::new();
                    push_range(&mut out, v, 0, i);
                    push_range(&mut out, v, j, n);
                    proof {
                        assert(v@.subrange(j as int, v@.len() as int) =~= v@.skip(j as int));
                        assert(out@ =~= v@.subrange(0, i as int) + v@.skip(
                            i + contents_marker().len() + (j - start),
                        ));
                    }
                    out
                },
            }
        },
    }
}

// ---------------------------------------------------------------------------
// The assembled pipeline.
// ---------------------------------------------------------------------------

/// The stripping passes on rendered plain text, in pipeline order: markup
/// artifacts, then residues, then the table-of-contents block.
pub open spec fn strip_pipeline(s: Seq<char>) -> Seq<char> {
    contents_removed(strip_residues_spec(strip_markup_spec(s)))
}

/// Run the stripping passes on rendered plain text.
pub fn strip_plain_text(v: &Vec<char>) -> (r: Vec<char>)
    ensures
        r@ == strip_pipeline(v@),
{
    let a = strip_markup(v);
    let b = strip_residues(&a);
    remove_contents_section(&b)
}

/// What html2text's renderer returns for a given document and width; the
/// result is a function of the hypertext and the width alone.
pub uninterp spec fn rendered_text(html: Seq<char>, width: int) -> Seq<char>;

/// Whether html2text's renderer succeeds for a given document and width;
/// like the rendered text itself, success depends on the two alone.
pub uninterp spec fn render_ok(html: Seq<char>, width: int) -> bool;

/// Relies on html2text::from_read: renders a hypertext document to plain
/// text wrapped to `width` columns, or fails (for one, when the width is
/// too narrow to render into); whether it fails depends on the document
/// and the width alone.
#[verifier::external_body]
fn render_plain(html: &Vec<char>, width: usize) -> (r: Option<Vec<char>>)
    ensures
        r is Some <==> render_ok(html@, width as int),
        r matches Some(t) ==> t@ == rendered_text(html@, width as int),
{
    let doc: String = html.iter().collect();
    match html2text::from_read(doc.as_bytes(), width) {
        Ok(text) => Some(text.chars().collect()),
        Err(_) => None,
    }
}

// ---------------------------------------------------------------------------
// Laws of the stripping passes.
// ---------------------------------------------------------------------------

/// No artifact the markup pass removes occurs in `s`: no square bracket,
/// no `edit` label, no bare URL.
pub open spec fn markup_free(s: Seq<char>) -> bool {
    &&& forall|i: int| 0 <= i < s.len() ==> s[i] != '[' && s[i] != ']'
    &&& !contains_pat(s, edit_label())
    &&& !contains_pat(s, url_prefix())
}

/// No decimal digit in `s` stands directly before whitespace.
pub open spec fn residue_free(s: Seq<char>) -> bool {
    forall|i: int| 0 <= i && i + 1 < s.len() ==> !(is_digit(#[trigger] s[i]) && is_space(s[i + 1]))
}

/// Already-stripped plain text: nothing for any stripping pass to do.
pub open spec fn stripped(s: Seq<char>) -> bool {
    &&& markup_free(s)
    &&& residue_free(s)
    &&& !contains_pat(s, contents_marker())
}

proof fn lemma_markup_free_tail(s: Seq<char>)
    requires
        s.len() > 0,
        markup_free(s),
    ensures
        markup_free(s.drop_first()),
{
    let t = s.drop_first();
    assert forall|i: int| 0 <= i < t.len() implies t[i] != '[' && t[i] != ']' by {
        assert(t[i] == s[i + 1]);
    }
    if contains_pat(t, edit_label()) {
        let j = choose|j: int| contains_at(t, j, edit_label());
        lemma_pat_at_shift(s, j, edit_label());
        assert(contains_at(s, j + 1, edit_label()));
    }
    if contains_pat(t, url_prefix()) {
        let j = choose|j: int| contains_at(t, j, url_prefix());
        lemma_pat_at_shift(s, j, url_prefix());
        assert(contains_at(s, j + 1, url_prefix()));
    }
}

proof fn lemma_markup_identity(s: Seq<char>)
    requires
        markup_free(s),
    ensures
        strip_markup_spec(s) == s,
    decreases s.len(),
{
    if s.len() == 0 {
        assert(strip_markup_spec(s) =~= s);
    } else {
        assert(s[0] != '[' && s[0] != ']');
        assert(!contains_at(s, 0, edit_label()));
        assert(!contains_at(s, 0, url_prefix()));
        lemma_markup_free_tail(s);
        lemma_markup_identity(s.drop_first());
        assert(strip_markup_spec(s) == seq![s[0]] + s.drop_first());
        assert(seq![s[0]] + s.drop_first() =~= s);
    }
}

proof fn lemma_residue_identity(s: Seq<char>)
    requires
        residue_free(s),
    ensures
        strip_residues_spec(s) == s,
    decreases s.len(),
{
    if s.len() == 0 {
        assert(strip_residues_spec(s) =~= s);
    } else {
        assert(s.len() >= 2 ==> !(is_digit(s[0]) && is_space(s[1])));
        let t = s.drop_first();
        assert forall|i: int| 0 <= i && i + 1 < t.len() implies !(is_digit(#[trigger] t[i])
            && is_space(t[i + 1])) by {
            assert(t[i] == s[i + 1]);
            assert(t[i + 1] == s[i + 2]);
            assert(!(is_digit(s[i + 1]) && is_space(s[i + 2])));
        }
        lemma_residue_identity(t);
        assert(strip_residues_spec(s) == seq![s[0]] + t);
        assert(seq![s[0]] + t =~= s);
    }
}

proof fn lemma_contents_identity(s: Seq<char>)
    requires
        !contains_pat(s, contents_marker()),
    ensures
        contents_removed(s) == s,
{
    lemma_find_pat_props(s, contents_marker());
    match find_pat(s, contents_marker()) {
        Some(i) => {
            assert(contains_at(s, i, contents_marker()));
        },
        None => {},
    }
}

/// Idempotence law: on already-stripped plain text each stripping pass
/// changes nothing, so running the passes twice yields exactly what one
/// run yields.
pub proof fn lemma_strip_idempotent(s: Seq<char>)
    requires
        stripped(s),
    ensures
        strip_pipeline(s) == s,
        strip_pipeline(strip_pipeline(s)) == strip_pipeline(s),
{
    lemma_markup_identity(s);
    lemma_residue_identity(s);
    lemma_contents_identity(s);
}

/// No square bracket anywhere in `s`.
pub open spec fn bracket_free(s: Seq<char>) -> bool {
    forall|i: int| 0 <= i < s.len() ==> s[i] != '[' && s[i] != ']'
}

proof fn lemma_markup_bracket_free(s: Seq<char>, in_url: bool)
    ensures
        bracket_free(strip_markup_rec(s, in_url)),
    decreases s.len(),
{
    if s.len() == 0 {
    } else if in_url {
        if is_space(s[0]) {
            lemma_markup_bracket_free(s.drop_first(), false);
            let t = strip_markup_rec(s.drop_first(), false);
            assert forall|i: int| 0 <= i < (seq![s[0]] + t).len() implies (seq![s[0]] + t)[i] != '['
                && (seq![s[0]] + t)[i] != ']' by {
                if i > 0 {
                    assert((seq![s[0]] + t)[i] == t[i - 1]);
                }
            }
        } else {
            lemma_markup_bracket_free(s.drop_first(), true);
        }
    } else if s[0] == '[' {
        let d = digits_len(s.drop_first()) as int;
        if 1 + d < s.len() && s[1 + d] == ']' {
            lemma_markup_bracket_free(s.skip(2 + d), false);
        } else {
            lemma_markup_bracket_free(s.drop_first(), false);
        }
    } else if s[0] == ']' {
        lemma_markup_bracket_free(s.drop_first(), false);
    } else if contains_at(s, 0, edit_label()) {
        lemma_markup_bracket_free(s.skip(edit_label().len() as int), false);
    } else if contains_at(s, 0, url_prefix()) {
        lemma_markup_bracket_free(s.skip(url_prefix().len() as int), true);
    } else {
        lemma_markup_bracket_free(s.drop_first(), false);
        let t = strip_markup_rec(s.drop_first(), false);
        assert forall|i: int| 0 <= i < (seq![s[0]] + t).len() implies (seq![s[0]] + t)[i] != '['
            && (seq![s[0]] + t)[i] != ']' by {
            if i > 0 {
                assert((seq![s[0]] + t)[i] == t[i - 1]);
            }
        }
    }
}

proof fn lemma_residues_bracket_free(s: Seq<char>)
    requires
        bracket_free(s),
    ensures
        bracket_free(strip_residues_spec(s)),
    decreases s.len(),
{
    if s.len() == 0 {
    } else if s.len() >= 2 && is_digit(s[0]) && is_space(s[1]) {
        assert forall|i: int| 0 <= i < s.skip(2).len() implies s.skip(2)[i] != '[' && s.skip(2)[i]
            != ']' by {
            assert(s.skip(2)[i] == s[i + 2]);
        }
        lemma_residues_bracket_free(s.skip(2));
    } else {
        assert forall|i: int| 0 <= i < s.drop_first().len() implies s.drop_first()[i] != '['
            && s.drop_first()[i] != ']' by {
            assert(s.drop_first()[i] == s[i + 1]);
        }
        lemma_residues_bracket_free(s.drop_first());
        let t = strip_residues_spec(s.drop_first());
        assert forall|i: int| 0 <= i < (seq![s[0]] + t).len() implies (seq![s[0]] + t)[i] != '['
            && (seq![s[0]] + t)[i] != ']' by {
            if i > 0 {
                assert((seq![s[0]] + t)[i] == t[i - 1]);
            }
        }
    }
}

proof fn lemma_contents_bracket_free(s: Seq<char>)
    requires
        bracket_free(s),
    ensures
        bracket_free(contents_removed(s)),
{
    match find_pat(s, contents_marker()) {
        None => {},
        Some(i) => {
            match find_pat(s.skip(i + contents_marker().len() as int), heading_marker()) {
                None => {},
                Some(k) => {
                    lemma_find_pat_props(s, contents_marker());
                    lemma_find_pat_props(
                        s.skip(i + contents_marker().len() as int),
                        heading_marker(),
                    );
                    let h = i + contents_marker().len() + k;
                    let r = s.subrange(0, i) + s.skip(h);
                    assert forall|j: int| 0 <= j < r.len() implies r[j] != '[' && r[j] != ']' by {
                        if j < i {
                            assert(r[j] == s[j]);
                        } else {
                            assert(r[j] == s[j - i + h]);
                        }
                    }
                },
            }
        },
    }
}

/// Cleanliness law: whatever the input, the output of the stripping passes
/// contains no square bracket at all - so no bracketed citation marker, and
/// no stray bracket, survives them.
pub proof fn lemma_strip_output_bracket_free(s: Seq<char>)
    ensures
        bracket_free(strip_pipeline(s)),
{
    lemma_markup_bracket_free(s, false);
    lemma_residues_bracket_free(strip_markup_spec(s));
    lemma_contents_bracket_free(strip_residues_spec(strip_markup_spec(s)));
}

/// Table-of-contents law: with the marker heading at `i`, a top-level
/// heading at offset `k` after it, and no second occurrence of the marker,
/// the removal keeps exactly the text before the marker and the text from
/// that next heading on - so neither the marker nor anything that stood
/// strictly between the two headings survives in the output.
pub proof fn lemma_contents_block_gone(s: Seq<char>, i: int, k: int)
    requires
        find_pat(s, contents_marker()) == Some(i),
        find_pat(s.skip(i + contents_marker().len() as int), heading_marker()) == Some(k),
        forall|j: int| j != i ==> !contains_at(s, j, contents_marker()),
    ensures
        contents_removed(s) == s.subrange(0, i) + s.skip(i + contents_marker().len() + k),
        !contains_pat(contents_removed(s), contents_marker()),
{
    let m = contents_marker().len() as int;
    let h = i + m + k;
    let r = s.subrange(0, i) + s.skip(h);
    lemma_find_pat_props(s, contents_marker());
    lemma_find_pat_props(s.skip(i + m), heading_marker());
    let tail = s.skip(i + m);
    assert(contains_at(tail, k, heading_marker()));
    assert(tail.subrange(k, k + 3)[0] == tail[k]);
    assert(tail.subrange(k, k + 3)[1] == tail[k + 1]);
    assert(s[h] == '#' && s[h + 1] == '#');
    assert(contents_marker()[2] == ' ');
    assert(contents_marker()[3] == 'C');
    assert(contents_marker()[4] == 'o');
    assert(contents_marker()[5] == 'n');
    assert(contents_marker()[6] == 't');
    assert(contents_marker()[7] == 'e');
    assert(contents_marker()[8] == 'n');
    assert(contents_marker()[9] == 't');
    assert(contents_marker()[10] == 's');
    if contains_pat(r, contents_marker()) {
        let q = choose|q: int| contains_at(r, q, contents_marker());
        assert forall|t: int| 0 <= t < m implies r[q + t] == contents_marker()[t] by {
            assert(r.subrange(q, q + m)[t] == r[q + t]);
        }
        if q + m <= i {
            assert(s.subrange(q, q + m) =~= r.subrange(q, q + m));
            assert(contains_at(s, q, contents_marker()));
            assert(false);
        } else if q >= i {
            assert(s.subrange(q - i + h, q - i + h + m) =~= r.subrange(q, q + m));
            assert(contains_at(s, q - i + h, contents_marker()));
            assert(q - i + h != i);
            assert(false);
        } else {
            let d = i - q;
            assert(1 <= d < m);
            assert(r[q + d] == s[h]);
            assert(contents_marker()[d] == '#');
            if d < m - 1 {
                assert(r[q + d + 1] == s[h + 1]);
                assert(contents_marker()[d + 1] == '#');
            }
            assert(false);
        }
    }
}

/// The whole reflow pipeline: strip self-referential anchors from the raw
/// hypertext, render it to plain text wrapped at `width` columns, then run
/// the stripping passes. `None` exactly when the renderer fails, which
/// depends on the anchor-stripped document and the width alone.
pub fn reflow_article(html: &Vec<char>, width: usize) -> (r: Option<Vec<char>>)
    ensures
        r is Some <==> render_ok(strip_anchors_spec(html@), width as int),
        r matches Some(t) ==> t@ == strip_pipeline(
            rendered_text(strip_anchors_spec(html@), width as int),
        ),
{
    let pre = strip_anchor_tags(html);
    match render_plain(&pre, width) {
        Some(text) => Some(strip_plain_text(&text)),
        None => None,
    }
}

} // verus!

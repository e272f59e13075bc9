use vstd::prelude::*;

verus! {

/// Characters that are escaped inside a field: the separator and the escape.
pub open spec fn is_special(c: char) -> bool {
    c == '|' || c == '\\'
}

pub open spec fn escape_char(c: char) -> Seq<char> {
    if is_special(c) {
        seq!['\\', c]
    } else {
        seq![c]
    }
}

/// A field's text with each special character preceded by a backslash.
pub open spec fn escape(s: Seq<char>) -> Seq<char>
    decreases s.len(),
{
    if s.len() == 0 {
        Seq::empty()
    } else {
        escape_char(s[0]) + escape(s.drop_first())
    }
}

/// The fields, each escaped and followed by the separator `|`.
pub open spec fn join_fields(fs: Seq<Seq<char>>) -> Seq<char>
    decreases fs.len(),
{
    if fs.len() == 0 {
        Seq::empty()
    } else {
        escape(fs[0]) + seq!['|'] + join_fields(fs.drop_first())
    }
}

/// Reads one field of `s` from position `i`, `acc` holding what was read of
/// it so far: the field and the position after its separator.
pub open spec fn unescape_from(s: Seq<char>, i: int, acc: Seq<char>) -> Option<(Seq<char>, int)>
    decreases s.len() - i,
{
    if i < 0 || i >= s.len() {
        None
    } else if s[i] == '|' {
        Some((acc, i + 1))
    } else if s[i] == '\\' {
        if i + 1 >= s.len() {
            None
        } else {
            unescape_from(s, i + 2, acc.push(s[i + 1]))
        }
    } else {
        unescape_from(s, i + 1, acc.push(s[i]))
    }
}

/// Reads exactly `n` fields of `s` from position `i` to its end, after those in `acc`.
pub open spec fn fields_from(s: Seq<char>, i: int, n: nat, acc: Seq<Seq<char>>) -> Option<
    Seq<Seq<char>>,
>
    decreases n,
{
    if n == 0 {
        if i == s.len() {
            Some(acc)
        } else {
            None
        }
    } else {
        match unescape_from(s, i, Seq::empty()) {
            Some((f, j)) => fields_from(s, j, (n - 1) as nat, acc.push(f)),
            None => None,
        }
    }
}

pub open spec fn deep(v: Seq<Vec<char>>) -> Seq<Seq<char>> {
    v.map_values(|f: Vec<char>| f@)
}

proof fn lemma_escape_concat(a: Seq<char>, b: Seq<char>)
    ensures
        escape(a + b) == escape(a) + escape(b),
    decreases a.len(),
{
    if a.len() == 0 {
        assert(a + b =~= b);
        assert(escape(a) + escape(b) =~= escape(b));
    } else {
        assert((a + b).drop_first() =~= a.drop_first() + b);
        lemma_escape_concat(a.drop_first(), b);
        assert(escape(a + b) =~= escape(a) + escape(b));
    }
}

proof fn lemma_join_concat(a: Seq<Seq<char>>, b: Seq<Seq<char>>)
    ensures
        join_fields(a + b) == join_fields(a) + join_fields(b),
    decreases a.len(),
{
    if a.len() == 0 {
        assert(a + b =~= b);
        assert(join_fields(a) + join_fields(b) =~= join_fields(b));
    } else {
        assert((a + b).drop_first() =~= a.drop_first() + b);
        lemma_join_concat(a.drop_first(), b);
        assert(join_fields(a + b) =~= join_fields(a) + join_fields(b));
    }
}

proof fn lemma_escape_single(c: char)
    ensures
        escape(seq![c]) == escape_char(c),
{
    let e = Seq::<char>::empty();
    assert(escape(e) == e);
    assert(seq![c].drop_first() =~= e);
    assert(escape(seq![c]) == escape_char(c) + escape(e));
    assert(escape(seq![c]) =~= escape_char(c));
}

proof fn lemma_join_single(f: Seq<char>)
    ensures
        join_fields(seq![f]) == escape(f) + seq!['|'],
{
    let e = Seq::<Seq<char>>::empty();
    assert(join_fields(e) == Seq::<char>::empty());
    assert(seq![f].drop_first() =~= e);
    assert(join_fields(seq![f]) == escape(f) + seq!['|'] + join_fields(e));
    assert(join_fields(seq![f]) =~= escape(f) + seq!['|']);
}

/// An escaped field followed by its separator reads back as the field.
pub proof fn lemma_unescape(s: Seq<char>, i: int, f: Seq<char>, rest: Seq<char>, acc: Seq<char>)
    requires
        0 <= i <= s.len(),
        s.subrange(i, s.len() as int) == escape(f) + seq!['|'] + rest,
    ensures
        unescape_from(s, i, acc) == Some((acc + f, s.len() - rest.len())),
    decreases f.len(),
{
    let t = s.subrange(i, s.len() as int);
    assert(t.len() == escape(f).len() + 1 + rest.len());
    assert(s[i] == t[0]);
    if f.len() == 0 {
        assert(escape(f) =~= Seq::<char>::empty());
        assert(t =~= seq!['|'] + rest);
        assert(acc + f =~= acc);
    } else {
        let c = f[0];
        let g = f.drop_first();
        assert(escape(f) == escape_char(c) + escape(g));
        if is_special(c) {
            assert(t =~= seq!['\\', c] + (escape(g) + seq!['|'] + rest));
            assert(s[i + 1] == t[1]);
            let u = escape(g) + seq!['|'] + rest;
            assert(t.subrange(2, t.len() as int) =~= u);
            assert(s.subrange(i + 2, s.len() as int) =~= t.subrange(2, t.len() as int));
            lemma_unescape(s, i + 2, g, rest, acc.push(c));
        } else {
            assert(t =~= seq![c] + (escape(g) + seq!['|'] + rest));
            let u = escape(g) + seq!['|'] + rest;
            assert(t.subrange(1, t.len() as int) =~= u);
            assert(s.subrange(i + 1, s.len() as int) =~= t.subrange(1, t.len() as int));
            lemma_unescape(s, i + 1, g, rest, acc.push(c));
        }
        assert(acc.push(c) + g =~= acc + f);
    }
}

/// Joined fields read back as those fields.
pub proof fn lemma_fields(s: Seq<char>, i: int, fs: Seq<Seq<char>>, acc: Seq<Seq<char>>)
    requires
        0 <= i <= s.len(),
        s.subrange(i, s.len() as int) == join_fields(fs),
    ensures
        fields_from(s, i, fs.len(), acc) == Some(acc + fs),
    decreases fs.len(),
{
    if fs.len() == 0 {
        assert(acc + fs =~= acc);
    } else {
        let rest = join_fields(fs.drop_first());
        assert(s.subrange(i, s.len() as int) == escape(fs[0]) + seq!['|'] + rest);
        lemma_unescape(s, i, fs[0], rest, Seq::empty());
        assert(Seq::<char>::empty() + fs[0] =~= fs[0]);
        let j = s.len() - rest.len();
        let t = s.subrange(i, s.len() as int);
        assert(t.len() == escape(fs[0]).len() + 1 + rest.len());
        let m = t.len() - rest.len();
        assert(t.subrange(m, t.len() as int) =~= rest);
        assert(s.subrange(j, s.len() as int) =~= t.subrange(m, t.len() as int));
        lemma_fields(s, j, fs.drop_first(), acc.push(fs[0]));
        assert(acc.push(fs[0]) + fs.drop_first() =~= acc + fs);
    }
}

pub proof fn lemma_fields_len(s: Seq<char>, i: int, n: nat, acc: Seq<Seq<char>>)
    ensures
        fields_from(s, i, n, acc) matches Some(fs) ==> fs.len() == acc.len() + n,
    decreases n,
{
    if n > 0 {
        if let Some((f, j)) = unescape_from(s, i, Seq::empty()) {
            lemma_fields_len(s, j, (n - 1) as nat, acc.push(f));
        }
    }
}

/// Appends `f` escaped, then the separator.
pub fn push_field(out: &mut Vec<char>, f: &Vec<char>)
    ensures
        final(out)@ == old(out)@ + escape(f@) + seq!['|'],
{
    let mut i: usize = 0;
    while i < f.len()
        invariant
            i <= f.len(),
            out@ == old(out)@ + escape(f@.take(i as int)),
        decreases f.len() - i,
    {
        let c = f[i];
        if c == '|' || c == '\\' {
            out.push('\\');
        }
        out.push(c);
        proof {
            assert(f@.take(i + 1) =~= f@.take(i as int) + seq![c]);
            lemma_escape_concat(f@.take(i as int), seq![c]);
            lemma_escape_single(c);
        }
        i = i + 1;
        assert(out@ =~= old(out)@ + escape(f@.take(i as int)));
    }
    out.push('|');
    assert(f@.take(i as int) =~= f@);
    assert(out@ =~= old(out)@ + escape(f@) + seq!['|']);
}

/// All fields, joined.
pub fn join(fs: &Vec<Vec<char>>) -> (r: Vec<char>)
    ensures
        r@ == join_fields(deep(fs@)),
{
    let mut out: Vec<char> = Vec::new();
    let mut k: usize = 0;
    while k < fs.len()
        invariant
            k <= fs.len(),
            out@ == join_fields(deep(fs@).take(k as int)),
        decreases fs.len() - k,
    {
        push_field(&mut out, &fs[k]);
        proof {
            let d = deep(fs@);
            assert(d.take(k + 1) =~= d.take(k as int) + seq![d[k as int]]);
            lemma_join_concat(d.take(k as int), seq![d[k as int]]);
            lemma_join_single(d[k as int]);
        }
        k = k + 1;
    }
    assert(deep(fs@).take(k as int) =~= deep(fs@));
    out
}

/// Reads one field from position `i`.
pub fn next_field(s: &Vec<char>, i: usize) -> (r: Option<(Vec<char>, usize)>)
    ensures
        match unescape_from(s@, i as int, Seq::empty()) {
            Some((f, j)) => r matches Some((g, k)) && g@ == f && k == j,
            None => r is None,
        },
{
    let mut acc: Vec<char> = Vec::new();
    let mut p: usize = i;
    while p < s.len()
        invariant
            i <= p,
            unescape_from(s@, i as int, Seq::empty()) == unescape_from(s@, p as int, acc@),
        decreases s.len() - p,
    {
        let c = s[p];
        if c == '|' {
            return Some((acc, p + 1));
        } else if c == '\\' {
            if p + 1 >= s.len() {
                return None;
            }
            acc.push(s[p + 1]);
            p = p + 2;
        } else {
            acc.push(c);
            p = p + 1;
        }
    }
    None
}

/// Reads exactly `n` fields, which must end where `s` ends.
pub fn split_fields(s: &Vec<char>, n: usize) -> (r: Option<Vec<Vec<char>>>)
    ensures
        match fields_from(s@, 0, n as nat, Seq::empty()) {
            Some(fs) => r matches Some(v) && deep(v@) == fs,
            None => r is None,
        },
{
    let mut out: Vec<Vec<char>> = Vec::new();
    let mut pos: usize = 0;
    let mut k: usize = 0;
    assert(deep(out@) =~= Seq::<Seq<char>>::empty());
    while k < n
        invariant
            k <= n,
            fields_from(s@, 0, n as nat, Seq::empty()) == fields_from(
                s@,
                pos as int,
                (n - k) as nat,
                deep(out@),
            ),
        decreases n - k,
    {
        match next_field(s, pos) {
            Some((f, j)) => {
                let ghost before = deep(out@);
                out.push(f);
                assert(deep(out@) =~= before.push(f@));
                pos = j;
            },
            None => {
                return None;
            },
        }
        k = k + 1;
    }
    if pos == s.len() {
        Some(out)
    } else {
        None
    }
}

} // verus!

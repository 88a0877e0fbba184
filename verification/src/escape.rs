use vstd::prelude::*;

verus! {

/// The markup-significant characters: each of them is neutralized by
/// inserting a backslash marker immediately before it.
pub open spec fn is_special_char(c: char) -> bool {
    c == '\\' || c == '`' || c == '*' || c == '_' || c == '{' || c == '}' || c == '[' || c == ']'
        || c == '(' || c == ')' || c == '<' || c == '>' || c == '#' || c == '+' || c == '-'
        || c == '!' || c == '~'
}

/// What the escaper emits for one character.
pub open spec fn escape_char(c: char) -> Seq<char> {
    if is_special_char(c) {
        seq!['\\', c]
    } else {
        seq![c]
    }
}

/// The escaping transform on a whole text: every special character is
/// prefixed with a backslash, every other character is kept as it is.
pub open spec fn escape_text(s: Seq<char>) -> Seq<char>
    decreases s.len(),
{
    if s.len() == 0 {
        Seq::empty()
    } else {
        escape_char(s[0]) + escape_text(s.drop_first())
    }
}

pub proof fn lemma_escape_text_concat(a: Seq<char>, b: Seq<char>)
    ensures
        escape_text(a + b) == escape_text(a) + escape_text(b),
    decreases a.len(),
{
    if a.len() == 0 {
        assert(a + b =~= b);
        assert(escape_text(a) + escape_text(b) =~= escape_text(b));
    } else {
        assert((a + b).drop_first() =~= a.drop_first() + b);
        assert((a + b)[0] == a[0]);
        lemma_escape_text_concat(a.drop_first(), b);
        assert(escape_char(a[0]) + (escape_text(a.drop_first()) + escape_text(b)) =~= (escape_char(
            a[0],
        ) + escape_text(a.drop_first())) + escape_text(b));
    }
}

pub proof fn lemma_escape_text_single(c: char)
    ensures
        escape_text(seq![c]) == escape_char(c),
{
    let s = seq![c];
    assert(s.len() == 1);
    assert(s[0] == c);
    assert(s.drop_first() =~= Seq::<char>::empty());
    assert(escape_text(s.drop_first()) =~= Seq::<char>::empty());
    assert(escape_text(s) == escape_char(c) + escape_text(s.drop_first()));
    assert(escape_char(c) + Seq::<char>::empty() =~= escape_char(c));
}

pub proof fn lemma_escape_text_snoc(s: Seq<char>, c: char)
    ensures
        escape_text(s.push(c)) == escape_text(s) + escape_char(c),
{
    assert(s.push(c) =~= s + seq![c]);
    lemma_escape_text_concat(s, seq![c]);
    lemma_escape_text_single(c);
}

/// Escaping changes nothing on a text without special characters.
pub proof fn lemma_escape_text_identity(s: Seq<char>)
    requires
        forall|i: int| 0 <= i < s.len() ==> !is_special_char(s[i]),
    ensures
        escape_text(s) == s,
    decreases s.len(),
{
    if s.len() == 0 {
        assert(escape_text(s) =~= s);
    } else {
        assert(forall|i: int|
            0 <= i < s.drop_first().len() ==> !is_special_char(#[trigger] s.drop_first()[i]));
        lemma_escape_text_identity(s.drop_first());
        assert(escape_char(s[0]) =~= seq![s[0]]);
        assert(seq![s[0]] + s.drop_first() =~= s);
    }
}

/// Where a character of the input lands in the escaped output: after the
/// escaping of everything before it.
pub open spec fn escape_pos(s: Seq<char>, j: int) -> int {
    escape_text(s.subrange(0, j)).len() as int
}

/// Every character of the input is found again in the escaped output, and a
/// special one carries the backslash marker immediately before it.
pub proof fn lemma_escape_text_marks(s: Seq<char>, j: int)
    requires
        0 <= j < s.len(),
    ensures
        0 <= escape_pos(s, j),
        escape_pos(s, j) + escape_char(s[j]).len() <= escape_text(s).len(),
        is_special_char(s[j]) ==> escape_text(s)[escape_pos(s, j)] == '\\' && escape_text(
            s,
        )[escape_pos(s, j) + 1] == s[j],
        !is_special_char(s[j]) ==> escape_text(s)[escape_pos(s, j)] == s[j],
{
    let pre = s.subrange(0, j);
    let suf = s.subrange(j + 1, s.len() as int);
    assert(s =~= pre + seq![s[j]] + suf);
    lemma_escape_text_concat(pre + seq![s[j]], suf);
    lemma_escape_text_concat(pre, seq![s[j]]);
    lemma_escape_text_single(s[j]);
    assert(escape_text(s) =~= escape_text(pre) + escape_char(s[j]) + escape_text(suf));
}

/// A segmentation of a text: each part is either a recognized hyperlink
/// (flag set) or a gap of plain text between hyperlinks (flag clear).
pub open spec fn concat_segments(segs: Seq<(Seq<char>, bool)>) -> Seq<char>
    decreases segs.len(),
{
    if segs.len() == 0 {
        Seq::empty()
    } else {
        segs[0].0 + concat_segments(segs.drop_first())
    }
}

/// A hyperlink segment is written verbatim; a gap is escaped.
pub open spec fn render_segment(seg: (Seq<char>, bool)) -> Seq<char> {
    if seg.1 {
        seg.0
    } else {
        escape_text(seg.0)
    }
}

/// The escaping writer's output for a segmented text: every segment in
/// order, hyperlinks verbatim, gaps escaped.
pub open spec fn render_segments(segs: Seq<(Seq<char>, bool)>) -> Seq<char>
    decreases segs.len(),
{
    if segs.len() == 0 {
        Seq::empty()
    } else {
        render_segment(segs[0]) + render_segments(segs.drop_first())
    }
}

pub proof fn lemma_render_segments_snoc(segs: Seq<(Seq<char>, bool)>, seg: (Seq<char>, bool))
    ensures
        render_segments(segs.push(seg)) == render_segments(segs) + render_segment(seg),
    decreases segs.len(),
{
    if segs.len() == 0 {
        assert(segs.push(seg).drop_first() =~= Seq::<(Seq<char>, bool)>::empty());
        assert(segs.push(seg)[0] == seg);
        assert(render_segments(Seq::<(Seq<char>, bool)>::empty()) =~= Seq::<char>::empty());
        assert(render_segments(segs.push(seg)) =~= render_segment(seg));
        assert(render_segments(segs) + render_segment(seg) =~= render_segment(seg));
    } else {
        assert(segs.push(seg).drop_first() =~= segs.drop_first().push(seg));
        assert(segs.push(seg)[0] == segs[0]);
        lemma_render_segments_snoc(segs.drop_first(), seg);
        assert(render_segment(segs[0]) + (render_segments(segs.drop_first()) + render_segment(seg))
            =~= (render_segment(segs[0]) + render_segments(segs.drop_first())) + render_segment(
            seg,
        ));
    }
}

/// On a text without special characters, rendering a segmentation of it
/// changes nothing: the output is the segments' concatenation itself.
pub proof fn lemma_render_segments_identity(segs: Seq<(Seq<char>, bool)>)
    requires
        forall|i: int|
            0 <= i < concat_segments(segs).len() ==> !is_special_char(concat_segments(segs)[i]),
    ensures
        render_segments(segs) == concat_segments(segs),
    decreases segs.len(),
{
    if segs.len() == 0 {
    } else {
        let a = segs[0].0;
        let rest = segs.drop_first();
        assert(concat_segments(segs) == a + concat_segments(rest));
        assert(forall|i: int| 0 <= i < a.len() ==> (a + concat_segments(rest))[i] == a[i]);
        assert(forall|i: int| 0 <= i < a.len() ==> !is_special_char(a[i]));
        assert(forall|i: int|
            0 <= i < concat_segments(rest).len() ==> (a + concat_segments(rest))[a.len() + i]
                == concat_segments(rest)[i]);
        assert(forall|i: int|
            0 <= i < concat_segments(rest).len() ==> !is_special_char(
                #[trigger] concat_segments(rest)[i],
            ));
        lemma_escape_text_identity(a);
        lemma_render_segments_identity(rest);
    }
}

/// Law: the rendering of each segment appears contiguously in the rendered
/// output of the whole segmentation. A plain-text gap thus appears as its
/// escaped form, in which every special character of the gap carries the
/// backslash marker immediately before it (lemma_escape_text_marks).
pub proof fn lemma_segment_rendering_in_place(segs: Seq<(Seq<char>, bool)>, i: int)
    requires
        0 <= i < segs.len(),
    ensures
        exists|off: int|
            0 <= off && off + render_segment(segs[i]).len() <= render_segments(segs).len()
                && #[trigger] render_segments(segs).subrange(
                off,
                off + render_segment(segs[i]).len() as int,
            ) =~= render_segment(segs[i]),
    decreases i,
{
    let whole = render_segments(segs);
    let head = render_segment(segs[0]);
    let rest = render_segments(segs.drop_first());
    assert(whole == head + rest);
    if i == 0 {
        assert(whole.subrange(0, head.len() as int) =~= head);
        assert(0 + render_segment(segs[i]).len() <= whole.len() && whole.subrange(
            0,
            0 + render_segment(segs[i]).len() as int,
        ) =~= render_segment(segs[i]));
    } else {
        lemma_segment_rendering_in_place(segs.drop_first(), i - 1);
        let sub = render_segment(segs.drop_first()[i - 1]);
        let off0 = choose|off: int|
            0 <= off && off + sub.len() <= rest.len() && #[trigger] rest.subrange(
                off,
                off + sub.len() as int,
            ) =~= sub;
        let off = head.len() + off0;
        assert(segs.drop_first()[i - 1] == segs[i]);
        assert(whole.subrange(off, off + sub.len() as int) =~= rest.subrange(
            off0,
            off0 + sub.len() as int,
        ));
        assert(0 <= off && off + render_segment(segs[i]).len() <= whole.len() && whole.subrange(
            off,
            off + render_segment(segs[i]).len() as int,
        ) =~= render_segment(segs[i]));
    }
}

/// Law: every hyperlink segment appears byte for byte, unescaped, somewhere
/// in the rendered output.
pub proof fn lemma_link_segment_verbatim(segs: Seq<(Seq<char>, bool)>, i: int)
    requires
        0 <= i < segs.len(),
        segs[i].1,
    ensures
        exists|off: int|
            0 <= off && off + segs[i].0.len() <= render_segments(segs).len() && #[trigger] render_segments(
                segs,
            ).subrange(off, off + segs[i].0.len() as int) =~= segs[i].0,
{
    lemma_segment_rendering_in_place(segs, i);
    let r = render_segment(segs[i]);
    let off = choose|off: int|
        0 <= off && off + r.len() <= render_segments(segs).len() && #[trigger] render_segments(
            segs,
        ).subrange(off, off + r.len() as int) =~= r;
    assert(r == segs[i].0);
    assert(0 <= off && off + segs[i].0.len() <= render_segments(segs).len() && render_segments(
        segs,
    ).subrange(off, off + segs[i].0.len() as int) =~= segs[i].0);
}

} // verus!

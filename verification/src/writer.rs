use vstd::prelude::*;
use vstd::string::StrSliceExecFns;
use vstd::string::StringExecFns;

use crate::escape::concat_segments;
use crate::escape::escape_char;
use crate::escape::escape_text;
use crate::escape::is_special_char;
use crate::escape::lemma_escape_text_snoc;
use crate::escape::lemma_link_segment_verbatim;
use crate::escape::lemma_render_segments_identity;
use crate::escape::lemma_render_segments_snoc;
use crate::escape::render_segment;
use crate::escape::render_segments;

verus! {

/// The segmentation of a text into hyperlink spans and the plain-text gaps
/// between them, as the link detector recognizes it: a function of the text
/// alone.
pub uninterp spec fn link_segments_of(text: Seq<char>) -> Seq<(Seq<char>, bool)>;

/// How a text is escaped: gaps between recognized hyperlinks are run
/// through the escaping transform, the hyperlinks themselves are kept
/// verbatim.
pub open spec fn escaped_text(text: Seq<char>) -> Seq<char> {
    render_segments(link_segments_of(text))
}

/// The mathematical value of an executable segment list.
pub open spec fn segments_view(v: Seq<(String, bool)>) -> Seq<(Seq<char>, bool)> {
    v.map_values(|p: (String, bool)| (p.0@, p.1))
}

/// Relies on linkify::LinkFinder::spans with the default configuration: the
/// spans are consecutive, combined they are the input in its entirety, and
/// a span carries a kind exactly when it is a hyperlink. Which spans are
/// hyperlinks depends on the input text alone.
#[verifier::external_body]
fn split_link_segments(text: &str) -> (r: Vec<(String, bool)>)
    ensures
        segments_view(r@) == link_segments_of(text@),
        concat_segments(segments_view(r@)) == text@,
{
    linkify::LinkFinder::new().spans(text).map(
        |sp| (sp.as_str().to_string(), sp.kind().is_some()),
    ).collect()
}

/// The percent-encoding of a text: a function of the text alone.
pub uninterp spec fn percent_encoding_of(text: Seq<char>) -> Seq<char>;

/// Relies on urlencoding::encode: percent-encodes every byte of the UTF-8
/// form except ASCII alphanumerics and '-', '_', '.', '~'; the result
/// depends on the input text alone.
#[verifier::external_body]
fn encode_component(text: &str) -> (r: String)
    ensures
        r@ == percent_encoding_of(text@),
{
    urlencoding::encode(text).into_owned()
}

/// Relies on String::push: appends exactly the given character.
#[verifier::external_body]
fn push_char(s: &mut String, c: char)
    ensures
        final(s)@ == old(s)@.push(c),
{
    s.push(c);
}

/// The characters the code-block trimmer strips at either end: the Unicode
/// white-space characters.
pub open spec fn is_ws_char(c: char) -> bool {
    c == ' ' || c == '\t' || c == '\n' || c == '\r' || c == '\u{b}' || c == '\u{c}' || c
        == '\u{85}' || c == '\u{a0}' || c == '\u{1680}' || c == '\u{2000}' || c == '\u{2001}' || c
        == '\u{2002}' || c == '\u{2003}' || c == '\u{2004}' || c == '\u{2005}' || c == '\u{2006}'
        || c == '\u{2007}' || c == '\u{2008}' || c == '\u{2009}' || c == '\u{200a}' || c
        == '\u{2028}' || c == '\u{2029}' || c == '\u{202f}' || c == '\u{205f}' || c == '\u{3000}'
}

pub open spec fn trim_front(s: Seq<char>) -> Seq<char>
    decreases s.len(),
{
    if s.len() > 0 && is_ws_char(s[0]) {
        trim_front(s.drop_first())
    } else {
        s
    }
}

pub open spec fn trim_back(s: Seq<char>) -> Seq<char>
    decreases s.len(),
{
    if s.len() > 0 && is_ws_char(s[s.len() - 1]) {
        trim_back(s.drop_last())
    } else {
        s
    }
}

/// A text with its leading and trailing white space removed.
pub open spec fn trim_ws(s: Seq<char>) -> Seq<char> {
    trim_back(trim_front(s))
}

proof fn lemma_trim_front_at(s: Seq<char>, i: int)
    requires
        0 <= i <= s.len(),
        forall|k: int| 0 <= k < i ==> is_ws_char(s[k]),
        i < s.len() ==> !is_ws_char(s[i]),
    ensures
        trim_front(s) == s.subrange(i, s.len() as int),
    decreases i,
{
    if i == 0 {
        assert(s.subrange(0, s.len() as int) =~= s);
    } else {
        let d = s.drop_first();
        assert(forall|k: int| 0 <= k < i - 1 ==> is_ws_char(#[trigger] d[k]));
        lemma_trim_front_at(d, i - 1);
        assert(d.subrange(i - 1, d.len() as int) =~= s.subrange(i, s.len() as int));
    }
}

proof fn lemma_trim_back_at(s: Seq<char>, m: int)
    requires
        0 <= m <= s.len(),
        forall|k: int| m <= k < s.len() ==> is_ws_char(s[k]),
        m > 0 ==> !is_ws_char(s[m - 1]),
    ensures
        trim_back(s) == s.subrange(0, m),
    decreases s.len(),
{
    if m == s.len() {
        if s.len() == 0 {
            assert(s.subrange(0, 0) =~= s);
        } else {
            assert(!is_ws_char(s[s.len() - 1]));
            assert(s.subrange(0, m) =~= s);
        }
    } else {
        let d = s.drop_last();
        assert(is_ws_char(s[s.len() - 1]));
        assert(forall|k: int| m <= k < d.len() ==> is_ws_char(#[trigger] d[k]));
        assert(m > 0 ==> !is_ws_char(d[m - 1]));
        lemma_trim_back_at(d, m);
        assert(d.subrange(0, m) =~= s.subrange(0, m));
    }
}

/// What the legacy code-block emitter writes for one character: a newline
/// is followed by the tab that re-indents the next line.
pub open spec fn indent_char(c: char) -> Seq<char> {
    if c == '\n' {
        seq!['\n', '\t']
    } else {
        seq![c]
    }
}

/// A text with a tab inserted after every newline; the tab that re-indents
/// the first line stands in front of this (see spec_legacy_code_block).
pub open spec fn tab_indent(s: Seq<char>) -> Seq<char>
    decreases s.len(),
{
    if s.len() == 0 {
        Seq::empty()
    } else {
        indent_char(s[0]) + tab_indent(s.drop_first())
    }
}

proof fn lemma_tab_indent_snoc(s: Seq<char>, c: char)
    ensures
        tab_indent(s.push(c)) == tab_indent(s) + indent_char(c),
    decreases s.len(),
{
    if s.len() == 0 {
        assert(s.push(c).drop_first() =~= Seq::<char>::empty());
        assert(s.push(c)[0] == c);
        assert(tab_indent(Seq::<char>::empty()) =~= Seq::<char>::empty());
        assert(tab_indent(s.push(c)) =~= indent_char(c));
        assert(tab_indent(s) + indent_char(c) =~= indent_char(c));
    } else {
        assert(s.push(c).drop_first() =~= s.drop_first().push(c));
        assert(s.push(c)[0] == s[0]);
        lemma_tab_indent_snoc(s.drop_first(), c);
        assert(indent_char(s[0]) + (tab_indent(s.drop_first()) + indent_char(c)) =~= (indent_char(
            s[0],
        ) + tab_indent(s.drop_first())) + indent_char(c));
    }
}

/// A character repeated a given number of times.
pub open spec fn char_repeat(c: char, n: int) -> Seq<char>
    decreases n,
{
    if n <= 0 {
        Seq::empty()
    } else {
        char_repeat(c, n - 1).push(c)
    }
}

fn is_ws_exec(c: char) -> (b: bool)
    ensures
        b == is_ws_char(c),
{
    c == ' ' || c == '\t' || c == '\n' || c == '\r' || c == '\u{b}' || c == '\u{c}' || c
        == '\u{85}' || c == '\u{a0}' || c == '\u{1680}' || c == '\u{2000}' || c == '\u{2001}' || c
        == '\u{2002}' || c == '\u{2003}' || c == '\u{2004}' || c == '\u{2005}' || c == '\u{2006}'
        || c == '\u{2007}' || c == '\u{2008}' || c == '\u{2009}' || c == '\u{200a}' || c
        == '\u{2028}' || c == '\u{2029}' || c == '\u{202f}' || c == '\u{205f}' || c == '\u{3000}'
}

fn ws_at(s: &str, i: usize, n: usize) -> (b: bool)
    requires
        n == s@.len(),
    ensures
        b == (i < n && is_ws_char(s@[i as int])),
{
    if i < n {
        is_ws_exec(s.get_char(i))
    } else {
        false
    }
}

fn ws_before(s: &str, j: usize, i: usize) -> (b: bool)
    requires
        j <= s@.len(),
    ensures
        b == (j > i && is_ws_char(s@[j - 1])),
{
    if j > i {
        is_ws_exec(s.get_char(j - 1))
    } else {
        false
    }
}

/// Removes leading and trailing white space.
pub fn trim_chars(s: &str) -> (r: &str)
    ensures
        r@ == trim_ws(s@),
{
    let n = s.unicode_len();
    let mut i: usize = 0;
    while ws_at(s, i, n)
        invariant
            n == s@.len(),
            i <= n,
            forall|k: int| 0 <= k < i ==> is_ws_char(s@[k]),
        decreases n - i,
    {
        i = i + 1;
    }
    let mut j: usize = n;
    while ws_before(s, j, i)
        invariant
            n == s@.len(),
            i <= j <= n,
            forall|k: int| j <= k < n ==> is_ws_char(s@[k]),
        decreases j,
    {
        j = j - 1;
    }
    proof {
        lemma_trim_front_at(s@, i as int);
        let sub = s@.subrange(i as int, n as int);
        assert(forall|k: int| j - i <= k < sub.len() ==> is_ws_char(#[trigger] sub[k]));
        lemma_trim_back_at(sub, j - i);
        assert(sub.subrange(0, j - i) =~= s@.subrange(i as int, j as int));
    }
    s.substring_char(i, j)
}

fn push_repeat(s: &mut String, c: char, n: usize)
    ensures
        final(s)@ == old(s)@ + char_repeat(c, n as int),
{
    let mut k: usize = 0;
    proof {
        assert(old(s)@ + char_repeat(c, 0) =~= old(s)@);
    }
    while k < n
        invariant
            k <= n,
            s@ == old(s)@ + char_repeat(c, k as int),
        decreases n - k,
    {
        push_char(s, c);
        proof {
            assert((old(s)@ + char_repeat(c, k as int)).push(c) =~= old(s)@ + char_repeat(
                c,
                k as int,
            ).push(c));
        }
        k = k + 1;
    }
}

/// The heading depths a document can use.
#[derive(Clone, Copy, Debug)]
pub enum HeaderLevel {
    One,
    Two,
    Three,
    Four,
    Five,
    Six,
}

/// How many marker characters a heading of the given level carries.
pub open spec fn spec_level_count(level: HeaderLevel) -> int {
    match level {
        HeaderLevel::One => 1,
        HeaderLevel::Two => 2,
        HeaderLevel::Three => 3,
        HeaderLevel::Four => 4,
        HeaderLevel::Five => 5,
        HeaderLevel::Six => 6,
    }
}

fn level_count(level: HeaderLevel) -> (n: usize)
    ensures
        n as int == spec_level_count(level),
{
    match level {
        HeaderLevel::One => 1,
        HeaderLevel::Two => 2,
        HeaderLevel::Three => 3,
        HeaderLevel::Four => 4,
        HeaderLevel::Five => 5,
        HeaderLevel::Six => 6,
    }
}

/// What the bold emitter writes: nothing for empty text, else the text
/// wrapped in double asterisks, unescaped.
pub open spec fn spec_bold(t: Seq<char>) -> Seq<char> {
    if t.len() == 0 {
        Seq::empty()
    } else {
        "**"@ + t + "**"@
    }
}

/// What the header emitter writes: the marker characters, a space, then the
/// raw text.
pub open spec fn spec_header(level: HeaderLevel, t: Seq<char>) -> Seq<char> {
    char_repeat('#', spec_level_count(level)) + " "@ + t
}

/// What the link emitter writes: nothing for empty text; the escaped text
/// alone for an empty destination; else the escaped text in brackets with
/// the destination adjacent and verbatim.
pub open spec fn spec_link(t: Seq<char>, href: Seq<char>) -> Seq<char> {
    if t.len() == 0 {
        Seq::empty()
    } else if href.len() == 0 {
        escaped_text(t)
    } else {
        "["@ + escaped_text(t) + "]"@ + href
    }
}

/// What the legacy code-block emitter writes: the trimmed code with every
/// line, the first included, re-indented by a tab prefix; code that trims
/// to nothing has no lines and writes nothing.
pub open spec fn spec_legacy_code_block(code: Seq<char>) -> Seq<char> {
    if trim_ws(code).len() == 0 {
        Seq::empty()
    } else {
        seq!['\t'] + tab_indent(trim_ws(code))
    }
}

pub open spec fn lang_view(language: Option<&str>) -> Seq<char> {
    match language {
        Option::Some(l) => l@,
        Option::None => Seq::empty(),
    }
}

/// What the fenced code-block emitter writes: an opening fence with the
/// optional language tag, the raw code on its own lines, a closing fence.
pub open spec fn spec_fenced_code_block(code: Seq<char>, lang: Seq<char>) -> Seq<char> {
    "```"@ + lang + "\n"@ + code + "\n```"@
}

/// What the anchor emitter writes: a fixed anchor tag around the
/// percent-encoded anchor name.
pub open spec fn spec_anchor(name: Seq<char>) -> Seq<char> {
    "<a name=\""@ + percent_encoding_of(name) + "\"></a>"@
}

/// Law: every hyperlink segment of a text appears verbatim, unescaped,
/// somewhere inside the escaped rendering of that text.
pub proof fn lemma_escaped_text_keeps_links(t: Seq<char>, i: int)
    requires
        0 <= i < link_segments_of(t).len(),
        link_segments_of(t)[i].1,
    ensures
        exists|off: int|
            0 <= off && off + link_segments_of(t)[i].0.len() <= escaped_text(t).len()
                && #[trigger] escaped_text(t).subrange(
                off,
                off + link_segments_of(t)[i].0.len() as int,
            ) =~= link_segments_of(t)[i].0,
{
    lemma_link_segment_verbatim(link_segments_of(t), i);
    let segs = link_segments_of(t);
    let off = choose|off: int|
        0 <= off && off + segs[i].0.len() <= render_segments(segs).len()
            && #[trigger] render_segments(segs).subrange(off, off + segs[i].0.len() as int)
            =~= segs[i].0;
    assert(0 <= off && off + link_segments_of(t)[i].0.len() <= escaped_text(t).len()
        && escaped_text(t).subrange(off, off + link_segments_of(t)[i].0.len() as int) =~= link_segments_of(
        t,
    )[i].0);
}

/// Accumulates a document as text, escaping markup-significant characters
/// while keeping hyperlinks intact.
pub struct MarkdownWriter {
    buf: String,
}

impl View for MarkdownWriter {
    type V = Seq<char>;

    closed spec fn view(&self) -> Seq<char> {
        self.buf@
    }
}

impl MarkdownWriter {
    pub fn new() -> (w: MarkdownWriter)
        ensures
            w@ == Seq::<char>::empty(),
    {
        MarkdownWriter { buf: String::new() }
    }

    /// Everything written so far.
    pub fn output(&self) -> (r: &str)
        ensures
            r@ == self@,
    {
        self.buf.as_str()
    }

    pub fn bold(&mut self, text: &str)
        ensures
            final(self)@ == old(self)@ + spec_bold(text@),
    {
        if text.is_empty() {
            proof {
                assert(old(self)@ + spec_bold(text@) =~= old(self)@);
            }
        } else {
            self.buf.append("**");
            self.buf.append(text);
            self.buf.append("**");
            proof {
                assert(((old(self)@ + "**"@) + text@) + "**"@ =~= old(self)@ + ("**"@ + text@
                    + "**"@));
            }
        }
    }

    pub fn header(&mut self, level: HeaderLevel, text: &str)
        ensures
            final(self)@ == old(self)@ + spec_header(level, text@),
    {
        let n = level_count(level);
        push_repeat(&mut self.buf, '#', n);
        self.buf.append(" ");
        self.buf.append(text);
        proof {
            assert(((old(self)@ + char_repeat('#', spec_level_count(level))) + " "@) + text@
                =~= old(self)@ + (char_repeat('#', spec_level_count(level)) + " "@ + text@));
        }
    }

    pub fn link(&mut self, text: &str, href: &str)
        ensures
            final(self)@ == old(self)@ + spec_link(text@, href@),
    {
        if text.is_empty() {
            proof {
                assert(old(self)@ + spec_link(text@, href@) =~= old(self)@);
            }
        } else if href.is_empty() {
            self.write_escaped(text);
        } else {
            self.buf.append("[");
            self.write_escaped(text);
            self.buf.append("]");
            self.buf.append(href);
            proof {
                assert((((old(self)@ + "["@) + escaped_text(text@)) + "]"@) + href@ =~= old(self)@
                    + ("["@ + escaped_text(text@) + "]"@ + href@));
            }
        }
    }

    pub fn legacy_code_block(&mut self, code: &str)
        ensures
            final(self)@ == old(self)@ + spec_legacy_code_block(code@),
    {
        let trimmed = trim_chars(code);
        let n = trimmed.unicode_len();
        if n == 0 {
            proof {
                assert(old(self)@ + spec_legacy_code_block(code@) =~= old(self)@);
            }
            return;
        }
        push_char(&mut self.buf, '\t');
        let mut k: usize = 0;
        proof {
            assert(trimmed@.subrange(0, 0) =~= Seq::<char>::empty());
            assert(old(self)@.push('\t') =~= old(self)@ + seq!['\t'] + tab_indent(
                trimmed@.subrange(0, 0),
            ));
        }
        while k < n
            invariant
                n == trimmed@.len(),
                k <= n,
                trimmed@ == trim_ws(code@),
                self@ == old(self)@ + seq!['\t'] + tab_indent(trimmed@.subrange(0, k as int)),
            decreases n - k,
        {
            let c = trimmed.get_char(k);
            proof {
                assert(trimmed@.subrange(0, k + 1) =~= trimmed@.subrange(0, k as int).push(c));
                lemma_tab_indent_snoc(trimmed@.subrange(0, k as int), c);
            }
            push_char(&mut self.buf, c);
            if c == '\n' {
                push_char(&mut self.buf, '\t');
            }
            proof {
                let pre = old(self)@ + seq!['\t'] + tab_indent(trimmed@.subrange(0, k as int));
                if c == '\n' {
                    assert(pre.push('\n').push('\t') =~= pre + indent_char(c));
                } else {
                    assert(pre.push(c) =~= pre + indent_char(c));
                }
                assert(pre + indent_char(c) =~= (old(self)@ + seq!['\t']) + (tab_indent(
                    trimmed@.subrange(0, k as int),
                ) + indent_char(c)));
            }
            k = k + 1;
        }
        proof {
            assert(trimmed@.subrange(0, n as int) =~= trimmed@);
            assert(old(self)@ + seq!['\t'] + tab_indent(trimmed@) =~= old(self)@ + (seq!['\t']
                + tab_indent(trimmed@)));
        }
    }

    pub fn fenced_code_block(&mut self, code: &str, language: Option<&str>)
        ensures
            final(self)@ == old(self)@ + spec_fenced_code_block(code@, lang_view(language)),
    {
        self.buf.append("```");
        match language {
            Option::Some(l) => self.buf.append(l),
            Option::None => {},
        }
        self.buf.append("\n");
        self.buf.append(code);
        self.buf.append("\n```");
        proof {
            assert(((((old(self)@ + "```"@) + lang_view(language)) + "\n"@) + code@) + "\n```"@
                =~= old(self)@ + ("```"@ + lang_view(language) + "\n"@ + code@ + "\n```"@));
        }
    }

    pub fn anchor(&mut self, name: &str)
        ensures
            final(self)@ == old(self)@ + spec_anchor(name@),
    {
        let encoded = encode_component(name);
        self.buf.append("<a name=\"");
        self.buf.append(encoded.as_str());
        self.buf.append("\"></a>");
        proof {
            assert(((old(self)@ + "<a name=\""@) + percent_encoding_of(name@)) + "\"></a>"@
                =~= old(self)@ + ("<a name=\""@ + percent_encoding_of(name@) + "\"></a>"@));
        }
    }

    pub fn anchor_header(&mut self, level: HeaderLevel, text: &str, name: &str)
        ensures
            final(self)@ == old(self)@ + spec_anchor(name@) + "\n"@ + spec_header(level, text@),
    {
        self.anchor(name);
        self.newline();
        self.header(level, text);
        proof {
            assert(char_repeat('\n', 1) =~= "\n"@) by {
                reveal_strlit("\n");
                assert(char_repeat('\n', 0) =~= Seq::<char>::empty());
            }
            assert(((old(self)@ + spec_anchor(name@)) + char_repeat('\n', 1)) + spec_header(
                level,
                text@,
            ) =~= old(self)@ + spec_anchor(name@) + "\n"@ + spec_header(level, text@));
        }
    }

    pub fn newline(&mut self)
        ensures
            final(self)@ == old(self)@ + char_repeat('\n', 1),
    {
        push_repeat(&mut self.buf, '\n', 1);
    }

    pub fn newlines(&mut self, count: usize)
        ensures
            final(self)@ == old(self)@ + char_repeat('\n', count as int),
    {
        push_repeat(&mut self.buf, '\n', count);
    }

    /// Writes the text with hyperlinks kept verbatim and every other part
    /// escaped. On text without special characters the output equals the
    /// input.
    pub fn write_escaped(&mut self, text: &str)
        ensures
            final(self)@ == old(self)@ + escaped_text(text@),
            (forall|i: int| 0 <= i < text@.len() ==> !is_special_char(text@[i])) ==> final(self)@
                == old(self)@ + text@,
    {
        let segs = split_link_segments(text);
        let ghost gsegs = link_segments_of(text@);
        let n = segs.len();
        let mut k: usize = 0;
        proof {
            assert(gsegs.subrange(0, 0) =~= Seq::<(Seq<char>, bool)>::empty());
            assert(old(self)@ + render_segments(gsegs.subrange(0, 0)) =~= old(self)@);
        }
        while k < n
            invariant
                n == segs@.len(),
                segs@.len() == gsegs.len(),
                gsegs == link_segments_of(text@),
                forall|i: int|
                    0 <= i < segs@.len() ==> segs@[i].0@ == gsegs[i].0 && segs@[i].1 == gsegs[i].1,
                k <= n,
                self@ == old(self)@ + render_segments(gsegs.subrange(0, k as int)),
            decreases n - k,
        {
            proof {
                assert(gsegs.subrange(0, k + 1) =~= gsegs.subrange(0, k as int).push(gsegs[k as int]));
                lemma_render_segments_snoc(gsegs.subrange(0, k as int), gsegs[k as int]);
            }
            let seg = &segs[k];
            if seg.1 {
                self.buf.append(seg.0.as_str());
            } else {
                self.write_escaped_raw(seg.0.as_str());
            }
            proof {
                assert((old(self)@ + render_segments(gsegs.subrange(0, k as int)))
                    + render_segment(gsegs[k as int]) =~= old(self)@
                    + (render_segments(gsegs.subrange(0, k as int)) + render_segment(
                    gsegs[k as int],
                )));
            }
            k = k + 1;
        }
        proof {
            assert(gsegs.subrange(0, n as int) =~= gsegs);
            if forall|i: int| 0 <= i < text@.len() ==> !is_special_char(text@[i]) {
                lemma_render_segments_identity(gsegs);
            }
        }
    }

    /// Writes the text with every special character escaped, hyperlinks
    /// included.
    pub fn write_escaped_raw(&mut self, text: &str)
        ensures
            final(self)@ == old(self)@ + escape_text(text@),
    {
        let n = text.unicode_len();
        let mut k: usize = 0;
        proof {
            assert(text@.subrange(0, 0) =~= Seq::<char>::empty());
            assert(old(self)@ + escape_text(text@.subrange(0, 0)) =~= old(self)@);
        }
        while k < n
            invariant
                n == text@.len(),
                k <= n,
                self@ == old(self)@ + escape_text(text@.subrange(0, k as int)),
            decreases n - k,
        {
            let c = text.get_char(k);
            proof {
                assert(text@.subrange(0, k + 1) =~= text@.subrange(0, k as int).push(c));
                lemma_escape_text_snoc(text@.subrange(0, k as int), c);
            }
            if is_special_exec(c) {
                push_char(&mut self.buf, '\\');
                push_char(&mut self.buf, c);
            } else {
                push_char(&mut self.buf, c);
            }
            proof {
                let pre = old(self)@ + escape_text(text@.subrange(0, k as int));
                if is_special_char(c) {
                    assert(pre.push('\\').push(c) =~= pre + escape_char(c));
                } else {
                    assert(pre.push(c) =~= pre + escape_char(c));
                }
                assert(pre + escape_char(c) =~= old(self)@ + (escape_text(
                    text@.subrange(0, k as int),
                ) + escape_char(c)));
            }
            k = k + 1;
        }
        proof {
            assert(text@.subrange(0, n as int) =~= text@);
        }
    }
}

fn is_special_exec(c: char) -> (b: bool)
    ensures
        b == is_special_char(c),
{
    c == '\\' || c == '`' || c == '*' || c == '_' || c == '{' || c == '}' || c == '[' || c == ']'
        || c == '(' || c == ')' || c == '<' || c == '>' || c == '#' || c == '+' || c == '-'
        || c == '!' || c == '~'
}

} // verus!

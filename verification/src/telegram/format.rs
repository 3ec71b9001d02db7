//! Markdown → Telegram HTML (standard markdown, not MarkdownV2): the model's
//! markdown is parsed into events and rendered with the tags the Bot API accepts.

use vstd::prelude::*;

use pulldown_cmark::{CodeBlockKind, Event, Options, Parser, Tag, TagEnd};

use crate::text::{append_slice, append_str, decimal, from_chars, to_chars, trim, trim_chars, u64_decimal};

verus! {

/// A markdown tag that opens an element.
pub enum MdTag {
    Heading,
    BlockQuote,
    /// A code block: `Some(lang)` when fenced (the language may be empty), `None` when indented.
    CodeBlock(Option<String>),
    /// A list, with the first number when it is ordered.
    List(Option<u64>),
    Item,
    Emphasis,
    Strong,
    Strikethrough,
    /// A link to the destination URL.
    Link(String),
    /// Any other tag (paragraphs, tables, HTML blocks, ...: they open nothing).
    Other,
}

/// A markdown tag that closes an element.
pub enum MdTagEnd {
    Paragraph,
    Heading,
    BlockQuote,
    CodeBlock,
    List,
    Table,
    TableRow,
    TableCell,
    Emphasis,
    Strong,
    Strikethrough,
    Link,
    Other,
}

/// One markdown parser event.
pub enum MdEvent {
    Start(MdTag),
    End(MdTagEnd),
    Text(String),
    Code(String),
    Html(String),
    InlineHtml(String),
    SoftBreak,
    HardBreak,
    Rule,
    /// Any other event.
    Other,
}

/// An open HTML element on the renderer's stack.
#[derive(Debug, Clone, Copy, PartialEq, Eq, Structural)]
pub enum OpenTag {
    Bold,
    Italic,
    Strike,
    Code,
    Anchor,
    Blockquote,
}

/// The opening tag text written for an element (an anchor is written with its URL).
pub open spec fn open_text(t: OpenTag) -> Seq<char> {
    match t {
        OpenTag::Bold => "<b>"@,
        OpenTag::Italic => "<i>"@,
        OpenTag::Strike => "<s>"@,
        OpenTag::Code => "<code>"@,
        OpenTag::Anchor => "<a>"@,
        OpenTag::Blockquote => "<blockquote>"@,
    }
}

/// The closing tag text of an element.
pub open spec fn close_text(t: OpenTag) -> Seq<char> {
    match t {
        OpenTag::Bold => "</b>"@,
        OpenTag::Italic => "</i>"@,
        OpenTag::Strike => "</s>"@,
        OpenTag::Code => "</code>"@,
        OpenTag::Anchor => "</a>"@,
        OpenTag::Blockquote => "</blockquote>"@,
    }
}

/// HTML text escaping of one character.
pub open spec fn escape_text_char(c: char) -> Seq<char> {
    if c == '&' {
        "&amp;"@
    } else if c == '<' {
        "&lt;"@
    } else if c == '>' {
        "&gt;"@
    } else {
        seq![c]
    }
}

/// HTML attribute escaping of one character.
pub open spec fn escape_attr_char(c: char) -> Seq<char> {
    if c == '&' {
        "&amp;"@
    } else if c == '"' {
        "&quot;"@
    } else if c == '<' {
        "&lt;"@
    } else {
        seq![c]
    }
}

/// `s` with `&`, `<`, `>` escaped.
pub open spec fn escape_text(s: Seq<char>) -> Seq<char>
    decreases s.len(),
{
    if s.len() == 0 {
        Seq::empty()
    } else {
        escape_text(s.drop_last()) + escape_text_char(s.last())
    }
}

/// `s` with `&`, `"`, `<` escaped.
pub open spec fn escape_attr(s: Seq<char>) -> Seq<char>
    decreases s.len(),
{
    if s.len() == 0 {
        Seq::empty()
    } else {
        escape_attr(s.drop_last()) + escape_attr_char(s.last())
    }
}

/// Renderer state.
pub struct RenderState {
    pub out: Seq<char>,
    pub stack: Seq<OpenTag>,
    pub in_pre: bool,
    pub pre_lang: Option<Seq<char>>,
    pub pre_buf: Seq<char>,
    /// Item counters of the open lists, innermost last ([`bullet`] for an unordered list).
    pub counters: Seq<usize>,
}

/// The state before any event.
pub open spec fn initial_state() -> RenderState {
    RenderState {
        out: Seq::empty(),
        stack: Seq::empty(),
        in_pre: false,
        pre_lang: None,
        pre_buf: Seq::empty(),
        counters: Seq::empty(),
    }
}

/// `out` followed by a newline unless it is empty or already ends with one.
pub open spec fn with_newline(out: Seq<char>) -> Seq<char> {
    if out.len() > 0 && out.last() != '\n' {
        out.push('\n')
    } else {
        out
    }
}

/// Marks a bullet list among the list counters.
pub open spec fn bullet() -> usize {
    usize::MAX
}

/// Position of the innermost open element of kind `t`.
pub open spec fn last_open(stack: Seq<OpenTag>, t: OpenTag) -> Option<int>
    decreases stack.len(),
{
    if stack.len() == 0 {
        None
    } else if stack.last() == t {
        Some(stack.len() - 1)
    } else {
        last_open(stack.drop_last(), t)
    }
}

/// Closing tags of the elements from `pos` to the top of the stack, innermost first.
pub open spec fn closings(stack: Seq<OpenTag>, pos: int) -> Seq<char>
    decreases stack.len(),
{
    if stack.len() <= pos || stack.len() == 0 {
        Seq::empty()
    } else {
        close_text(stack.last()) + closings(stack.drop_last(), pos)
    }
}

/// Closes the innermost open element of kind `t` and every element opened after it.
pub open spec fn pop_matching(st: RenderState, t: OpenTag) -> RenderState {
    match last_open(st.stack, t) {
        Some(pos) => RenderState { out: st.out + closings(st.stack, pos), stack: st.stack.take(pos), ..st },
        None => st,
    }
}

/// Opens an element.
pub open spec fn push_open(st: RenderState, t: OpenTag) -> RenderState {
    RenderState { out: st.out + open_text(t), stack: st.stack.push(t), ..st }
}

/// Writes a pending code block.
pub open spec fn flush_pre(st: RenderState) -> RenderState {
    if !st.in_pre {
        st
    } else {
        let open = match st.pre_lang {
            Some(lang) => "<pre><code class=\"language-"@ + escape_attr(lang) + "\">"@,
            None => "<pre><code>"@,
        };
        RenderState {
            in_pre: false,
            pre_lang: None,
            out: st.out + open + escape_text(st.pre_buf) + "</code></pre>\n"@,
            pre_buf: Seq::empty(),
            ..st
        }
    }
}

/// The list item prefix for the innermost list, and the updated counters.
pub open spec fn item_prefix(counters: Seq<usize>) -> (Seq<char>, Seq<usize>) {
    let n = counters.last();
    if n == bullet() {
        ("• "@, counters)
    } else {
        (decimal((n + 1) as nat) + ". "@, counters.update(counters.len() - 1, (n + 1) as usize))
    }
}

/// An event inside a code block.
pub open spec fn pre_step(st: RenderState, e: MdEvent) -> RenderState {
    match e {
        MdEvent::End(MdTagEnd::CodeBlock) => flush_pre(st),
        MdEvent::Code(t) => RenderState { pre_buf: st.pre_buf + t@, ..st },
        MdEvent::Text(t) => RenderState { pre_buf: st.pre_buf + t@, ..st },
        MdEvent::SoftBreak => RenderState { pre_buf: st.pre_buf.push('\n'), ..st },
        MdEvent::HardBreak => RenderState { pre_buf: st.pre_buf.push('\n'), ..st },
        _ => st,
    }
}

/// A start tag.
pub open spec fn start_step(st: RenderState, tag: MdTag) -> RenderState {
    match tag {
        MdTag::Heading => push_open(RenderState { out: with_newline(st.out), ..st }, OpenTag::Bold),
        MdTag::Strong => push_open(st, OpenTag::Bold),
        MdTag::Emphasis => push_open(st, OpenTag::Italic),
        MdTag::Strikethrough => push_open(st, OpenTag::Strike),
        MdTag::Link(url) => RenderState {
            out: st.out + "<a href=\""@ + escape_attr(url@) + "\">"@,
            stack: st.stack.push(OpenTag::Anchor),
            ..st
        },
        MdTag::BlockQuote => push_open(RenderState { out: with_newline(st.out), ..st }, OpenTag::Blockquote),
        MdTag::List(start) => RenderState {
            out: with_newline(st.out),
            counters: st.counters.push(if start is Some { 0 } else { bullet() }),
            ..st
        },
        MdTag::Item => {
            let (prefix, counters) = item_prefix(st.counters);
            RenderState { out: with_newline(st.out) + escape_text(prefix), counters, ..st }
        },
        MdTag::CodeBlock(kind) => RenderState {
            out: with_newline(st.out),
            in_pre: true,
            pre_buf: Seq::empty(),
            pre_lang: match kind {
                Some(lang) => if lang@.len() > 0 {
                    Some(lang@)
                } else {
                    None
                },
                None => None,
            },
            ..st
        },
        _ => st,
    }
}

/// An end tag.
pub open spec fn end_step(st: RenderState, tag: MdTagEnd) -> RenderState {
    match tag {
        MdTagEnd::Heading => pop_matching(st, OpenTag::Bold),
        MdTagEnd::Strong => pop_matching(st, OpenTag::Bold),
        MdTagEnd::Emphasis => pop_matching(st, OpenTag::Italic),
        MdTagEnd::Strikethrough => pop_matching(st, OpenTag::Strike),
        MdTagEnd::Link => pop_matching(st, OpenTag::Anchor),
        MdTagEnd::BlockQuote => pop_matching(st, OpenTag::Blockquote),
        MdTagEnd::List => RenderState {
            counters: if st.counters.len() > 0 { st.counters.drop_last() } else { st.counters },
            out: st.out.push('\n'),
            ..st
        },
        MdTagEnd::CodeBlock => flush_pre(st),
        MdTagEnd::Table => RenderState { out: st.out.push('\n'), ..st },
        MdTagEnd::TableRow => RenderState { out: st.out.push('\n'), ..st },
        MdTagEnd::TableCell => RenderState { out: st.out.push('\n'), ..st },
        MdTagEnd::Paragraph => RenderState { out: st.out.push('\n'), ..st },
        _ => st,
    }
}

/// One event.
#[verifier::opaque]
pub open spec fn step(st: RenderState, e: MdEvent) -> RenderState {
    if st.in_pre {
        pre_step(st, e)
    } else {
        match e {
            MdEvent::Start(tag) => start_step(st, tag),
            MdEvent::End(tag) => end_step(st, tag),
            MdEvent::Text(t) => RenderState { out: st.out + escape_text(t@), ..st },
            MdEvent::Code(t) => pop_matching(
                RenderState { out: push_open(st, OpenTag::Code).out + escape_text(t@), ..push_open(st, OpenTag::Code) },
                OpenTag::Code,
            ),
            MdEvent::SoftBreak => RenderState { out: st.out.push('\n'), ..st },
            MdEvent::HardBreak => RenderState { out: st.out.push('\n'), ..st },
            MdEvent::Rule => RenderState { out: with_newline(st.out) + "────────\n"@, ..st },
            MdEvent::Html(h) => RenderState { out: st.out + h@, ..st },
            MdEvent::InlineHtml(h) => RenderState { out: st.out + h@, ..st },
            MdEvent::Other => st,
        }
    }
}

/// The state after a sequence of events.
#[verifier::opaque]
pub open spec fn render_state(events: Seq<MdEvent>) -> RenderState
    decreases events.len(),
{
    if events.len() == 0 {
        initial_state()
    } else {
        step(render_state(events.drop_last()), events.last())
    }
}

/// Rendering one more event.
pub proof fn lemma_render_state_step(events: Seq<MdEvent>, i: int)
    requires
        0 <= i < events.len(),
    ensures
        render_state(events.take(i + 1)) == step(render_state(events.take(i)), events[i]),
{
    reveal(render_state);
    assert(events.take(i + 1).drop_last() =~= events.take(i));
}

/// A list item outside any list (a malformed event sequence).
pub open spec fn orphan_item(st: RenderState, e: MdEvent) -> bool {
    !st.in_pre && st.counters.len() == 0 && e matches MdEvent::Start(MdTag::Item)
}

/// Every list item comes inside a list.
pub open spec fn items_in_lists(events: Seq<MdEvent>) -> bool {
    forall|k: int| 0 <= k < events.len() ==> !orphan_item(render_state(events.take(k)), #[trigger] events[k])
}

/// The Telegram HTML of an event sequence.
pub open spec fn telegram_html(events: Seq<MdEvent>) -> Seq<char> {
    trim(flush_pre(render_state(events)).out)
}

/// Appends `s` with `&`, `<`, `>` escaped.
pub fn escape_text_into(out: &mut Vec<char>, s: &[char])
    ensures
        final(out)@ == old(out)@ + escape_text(s@),
{
    let mut i: usize = 0;
    assert(s@.take(0) =~= Seq::<char>::empty());
    while i < s.len()
        invariant
            i <= s.len(),
            out@ == old(out)@ + escape_text(s@.take(i as int)),
        decreases s.len() - i,
    {
        let c = s[i];
        assert(s@.take(i + 1).drop_last() =~= s@.take(i as int));
        if c == '&' {
            append_str(out, "&amp;");
        } else if c == '<' {
            append_str(out, "&lt;");
        } else if c == '>' {
            append_str(out, "&gt;");
        } else {
            out.push(c);
        }
        assert(out@ =~= old(out)@ + escape_text(s@.take(i + 1)));
        i += 1;
    }
    assert(s@.take(s.len() as int) =~= s@);
}

/// Appends `s` with `&`, `"`, `<` escaped.
pub fn escape_attr_into(out: &mut Vec<char>, s: &[char])
    ensures
        final(out)@ == old(out)@ + escape_attr(s@),
{
    let mut i: usize = 0;
    assert(s@.take(0) =~= Seq::<char>::empty());
    while i < s.len()
        invariant
            i <= s.len(),
            out@ == old(out)@ + escape_attr(s@.take(i as int)),
        decreases s.len() - i,
    {
        let c = s[i];
        assert(s@.take(i + 1).drop_last() =~= s@.take(i as int));
        if c == '&' {
            append_str(out, "&amp;");
        } else if c == '"' {
            append_str(out, "&quot;");
        } else if c == '<' {
            append_str(out, "&lt;");
        } else {
            out.push(c);
        }
        assert(out@ =~= old(out)@ + escape_attr(s@.take(i + 1)));
        i += 1;
    }
    assert(s@.take(s.len() as int) =~= s@);
}

/// Escapes `&`, `<`, `>` for HTML text.
pub fn escape_html_text(s: &str) -> (r: String)
    ensures
        r@ == escape_text(s@),
{
    let c = to_chars(s);
    let mut out: Vec<char> = Vec::new();
    escape_text_into(&mut out, &c);
    from_chars(&out)
}

fn open_tag_text(t: OpenTag) -> (r: &'static str)
    ensures
        r@ == open_text(t),
{
    match t {
        OpenTag::Bold => "<b>",
        OpenTag::Italic => "<i>",
        OpenTag::Strike => "<s>",
        OpenTag::Code => "<code>",
        OpenTag::Anchor => "<a>",
        OpenTag::Blockquote => "<blockquote>",
    }
}

fn closing_tag(t: OpenTag) -> (r: &'static str)
    ensures
        r@ == close_text(t),
{
    match t {
        OpenTag::Bold => "</b>",
        OpenTag::Italic => "</i>",
        OpenTag::Strike => "</s>",
        OpenTag::Code => "</code>",
        OpenTag::Anchor => "</a>",
        OpenTag::Blockquote => "</blockquote>",
    }
}

/// Renders markdown events to Telegram HTML.
pub struct HtmlRenderer {
    out: Vec<char>,
    stack: Vec<OpenTag>,
    in_pre: bool,
    pre_lang: Option<Vec<char>>,
    pre_buf: Vec<char>,
    counters: Vec<usize>,
}

impl View for HtmlRenderer {
    type V = RenderState;

    closed spec fn view(&self) -> RenderState {
        RenderState {
            out: self.out@,
            stack: self.stack@,
            in_pre: self.in_pre,
            pre_lang: match self.pre_lang {
                Some(l) => Some(l@),
                None => None,
            },
            pre_buf: self.pre_buf@,
            counters: self.counters@,
        }
    }
}

impl HtmlRenderer {
    /// A renderer before any event.
    pub fn new() -> (r: Self)
        ensures
            r@ == initial_state(),
    {
        let r = HtmlRenderer {
            out: Vec::new(),
            stack: Vec::new(),
            in_pre: false,
            pre_lang: None,
            pre_buf: Vec::new(),
            counters: Vec::new(),
        };
        assert(r@ == initial_state());
        r
    }

    fn newline_if_needed(&mut self)
        ensures
            final(self)@ == (RenderState { out: with_newline(old(self)@.out), ..old(self)@ }),
    {
        let n = self.out.len();
        if n > 0 && self.out[n - 1] != '\n' {
            self.out.push('\n');
        }
        assert(self@ =~= RenderState { out: with_newline(old(self)@.out), ..old(self)@ });
    }

    fn push_open(&mut self, t: OpenTag)
        ensures
            final(self)@ == push_open(old(self)@, t),
    {
        append_str(&mut self.out, open_tag_text(t));
        self.stack.push(t);
        assert(self@ =~= push_open(old(self)@, t));
    }

    fn pop_matching(&mut self, t: OpenTag)
        ensures
            final(self)@ == pop_matching(old(self)@, t),
    {
        let ghost st = self@;
        let mut i: usize = self.stack.len();
        assert(self.stack@.take(i as int) =~= self.stack@);
        while i > 0 && self.stack[i - 1] != t
            invariant
                i <= self.stack@.len(),
                self@ == st,
                last_open(st.stack, t) == last_open(st.stack.take(i as int), t),
            decreases i,
        {
            assert(self.stack@.take(i as int).drop_last() =~= self.stack@.take(i - 1));
            i -= 1;
        }
        if i == 0 {
            assert(last_open(st.stack.take(0), t) is None);
            return;
        }
        let pos = i - 1;
        assert(st.stack.take(i as int).last() == t);
        assert(last_open(st.stack, t) == Some(pos as int));
        let ghost full = st.stack;
        while self.stack.len() > pos
            invariant
                pos < full.len(),
                pos <= self.stack@.len() <= full.len(),
                self.stack@ == full.take(self.stack@.len() as int),
                self@.out + closings(self.stack@, pos as int) == st.out + closings(full, pos as int),
                self.in_pre == st.in_pre,
                self@.pre_lang == st.pre_lang,
                self.pre_buf@ == st.pre_buf,
                self.counters@ == st.counters,
            decreases self.stack@.len(),
        {
            let ghost before = self@;
            let open = self.stack.pop().unwrap();
            append_str(&mut self.out, closing_tag(open));
            assert(before.stack.drop_last() =~= self.stack@);
            assert(self.stack@ =~= full.take(self.stack@.len() as int));
            assert(self@.out + closings(self.stack@, pos as int) =~= before.out + closings(
                before.stack,
                pos as int,
            ));
        }
        assert(closings(self.stack@, pos as int) =~= Seq::<char>::empty());
        assert(self@.out =~= st.out + closings(full, pos as int));
        assert(self@ =~= pop_matching(st, t));
    }

    fn flush_pre(&mut self)
        ensures
            final(self)@ == flush_pre(old(self)@),
    {
        if !self.in_pre {
            return;
        }
        self.in_pre = false;
        let mut lang: Option<Vec<char>> = None;
        std::mem::swap(&mut lang, &mut self.pre_lang);
        match lang {
            Some(l) => {
                append_str(&mut self.out, "<pre><code class=\"language-");
                escape_attr_into(&mut self.out, &l);
                append_str(&mut self.out, "\">");
            },
            None => {
                append_str(&mut self.out, "<pre><code>");
            },
        }
        let ghost opened = self.out@;
        assert(opened == old(self)@.out + match old(self)@.pre_lang {
            Some(lang) => "<pre><code class=\"language-"@ + escape_attr(lang) + "\">"@,
            None => "<pre><code>"@,
        });
        escape_text_into(&mut self.out, &self.pre_buf);
        append_str(&mut self.out, "</code></pre>\n");
        self.pre_buf = Vec::new();
        assert(self@ =~= flush_pre(old(self)@));
    }

    fn on_pre_event(&mut self, e: &MdEvent)
        requires
            old(self)@.in_pre,
        ensures
            final(self)@ == pre_step(old(self)@, *e),
    {
        match e {
            MdEvent::End(MdTagEnd::CodeBlock) => self.flush_pre(),
            MdEvent::Code(t) => {
                let c = to_chars(t.as_str());
                append_slice(&mut self.pre_buf, &c);
                assert(self@ =~= pre_step(old(self)@, *e));
            },
            MdEvent::Text(t) => {
                let c = to_chars(t.as_str());
                append_slice(&mut self.pre_buf, &c);
                assert(self@ =~= pre_step(old(self)@, *e));
            },
            MdEvent::SoftBreak => {
                self.pre_buf.push('\n');
                assert(self@ =~= pre_step(old(self)@, *e));
            },
            MdEvent::HardBreak => {
                self.pre_buf.push('\n');
                assert(self@ =~= pre_step(old(self)@, *e));
            },
            _ => {},
        }
    }

    fn on_start(&mut self, tag: &MdTag)
        requires
            !old(self)@.in_pre,
            *tag is Item ==> old(self)@.counters.len() > 0,
        ensures
            final(self)@ == start_step(old(self)@, *tag),
    {
        match tag {
            MdTag::Heading => {
                self.newline_if_needed();
                self.push_open(OpenTag::Bold);
            },
            MdTag::Strong => self.push_open(OpenTag::Bold),
            MdTag::Emphasis => self.push_open(OpenTag::Italic),
            MdTag::Strikethrough => self.push_open(OpenTag::Strike),
            MdTag::Link(url) => {
                let u = to_chars(url.as_str());
                append_str(&mut self.out, "<a href=\"");
                escape_attr_into(&mut self.out, &u);
                append_str(&mut self.out, "\">");
                self.stack.push(OpenTag::Anchor);
                assert(self@ =~= start_step(old(self)@, *tag));
            },
            MdTag::BlockQuote => {
                self.newline_if_needed();
                self.push_open(OpenTag::Blockquote);
            },
            MdTag::List(start) => {
                self.newline_if_needed();
                if start.is_some() {
                    self.counters.push(0);
                } else {
                    self.counters.push(usize::MAX);
                }
                assert(self@ =~= start_step(old(self)@, *tag));
            },
            MdTag::Item => {
                self.newline_if_needed();
                let k = self.counters.len() - 1;
                let n = self.counters[k];
                let mut prefix: Vec<char> = Vec::new();
                if n == usize::MAX {
                    append_str(&mut prefix, "• ");
                } else {
                    self.counters.set(k, n + 1);
                    prefix = u64_decimal((n + 1) as u64);
                    append_str(&mut prefix, ". ");
                }
                escape_text_into(&mut self.out, &prefix);
                assert(self@ =~= start_step(old(self)@, *tag));
            },
            MdTag::CodeBlock(kind) => {
                self.newline_if_needed();
                self.in_pre = true;
                self.pre_buf = Vec::new();
                self.pre_lang = match kind {
                    Some(lang) => {
                        if lang.as_str().is_empty() {
                            None
                        } else {
                            Some(to_chars(lang.as_str()))
                        }
                    },
                    None => None,
                };
                assert(self@ =~= start_step(old(self)@, *tag));
            },
            _ => {},
        }
    }

    fn on_end(&mut self, tag: &MdTagEnd)
        requires
            !old(self)@.in_pre,
        ensures
            final(self)@ == end_step(old(self)@, *tag),
    {
        match tag {
            MdTagEnd::Heading => self.pop_matching(OpenTag::Bold),
            MdTagEnd::Strong => self.pop_matching(OpenTag::Bold),
            MdTagEnd::Emphasis => self.pop_matching(OpenTag::Italic),
            MdTagEnd::Strikethrough => self.pop_matching(OpenTag::Strike),
            MdTagEnd::Link => self.pop_matching(OpenTag::Anchor),
            MdTagEnd::BlockQuote => self.pop_matching(OpenTag::Blockquote),
            MdTagEnd::List => {
                if self.counters.len() > 0 {
                    self.counters.pop();
                }
                self.out.push('\n');
                assert(self@ =~= end_step(old(self)@, *tag));
            },
            MdTagEnd::CodeBlock => self.flush_pre(),
            MdTagEnd::Table | MdTagEnd::TableRow | MdTagEnd::TableCell | MdTagEnd::Paragraph => {
                self.out.push('\n');
                assert(self@ =~= end_step(old(self)@, *tag));
            },
            _ => {},
        }
    }

    /// Handles one event.
    pub fn on_event(&mut self, e: &MdEvent)
        requires
            !orphan_item(old(self)@, *e),
        ensures
            final(self)@ == step(old(self)@, *e),
    {
        reveal(step);
        if self.in_pre {
            self.on_pre_event(e);
            return;
        }
        match e {
            MdEvent::Start(tag) => self.on_start(tag),
            MdEvent::End(tag) => self.on_end(tag),
            MdEvent::Text(t) => {
                let c = to_chars(t.as_str());
                escape_text_into(&mut self.out, &c);
                assert(self@ =~= step(old(self)@, *e));
            },
            MdEvent::Code(t) => {
                self.push_open(OpenTag::Code);
                let c = to_chars(t.as_str());
                escape_text_into(&mut self.out, &c);
                self.pop_matching(OpenTag::Code);
            },
            MdEvent::SoftBreak | MdEvent::HardBreak => {
                self.out.push('\n');
                assert(self@ =~= step(old(self)@, *e));
            },
            MdEvent::Rule => {
                self.newline_if_needed();
                append_str(&mut self.out, "────────\n");
                assert(self@ =~= step(old(self)@, *e));
            },
            MdEvent::Html(h) | MdEvent::InlineHtml(h) => {
                let c = to_chars(h.as_str());
                append_slice(&mut self.out, &c);
                assert(self@ =~= step(old(self)@, *e));
            },
            MdEvent::Other => {},
        }
    }

    /// Writes a pending code block and returns the trimmed HTML.
    pub fn finish(self) -> (r: String)
        ensures
            r@ == trim(flush_pre(self@).out),
    {
        let mut s = self;
        s.flush_pre();
        let t = trim_chars(&s.out);
        from_chars(&t)
    }
}

/// Whether the next event is a list item outside any list.
fn is_orphan_item(r: &HtmlRenderer, e: &MdEvent) -> (b: bool)
    ensures
        b == orphan_item(r@, *e),
{
    !r.in_pre && r.counters.len() == 0 && matches!(e, MdEvent::Start(MdTag::Item))
}

/// Telegram HTML of an event sequence, or `None` when a list item comes outside any list.
pub fn render_telegram_html(events: &[MdEvent]) -> (r: Option<String>)
    ensures
        match r {
            Some(h) => items_in_lists(events@) && h@ == telegram_html(events@),
            None => !items_in_lists(events@),
        },
{
    let mut html = HtmlRenderer::new();
    let mut i: usize = 0;
    assert(events@.take(0) =~= Seq::<MdEvent>::empty());
    assert(render_state(Seq::<MdEvent>::empty()) == initial_state()) by {
        reveal(render_state);
    }
    while i < events.len()
        invariant
            i <= events.len(),
            html@ == render_state(events@.take(i as int)),
            forall|k: int| 0 <= k < i ==> !orphan_item(render_state(events@.take(k)), #[trigger] events@[k]),
        decreases events.len() - i,
    {
        if is_orphan_item(&html, &events[i]) {
            return None;
        }
        html.on_event(&events[i]);
        proof {
            lemma_render_state_step(events@, i as int);
        }
        i += 1;
    }
    assert(events@.take(events.len() as int) =~= events@);
    Some(html.finish())
}

#[verifier::external_type_specification]
#[verifier::external_body]
pub struct ExEvent<'a>(Event<'a>);

#[verifier::external_type_specification]
#[verifier::external_body]
pub struct ExTag<'a>(Tag<'a>);

#[verifier::external_type_specification]
#[verifier::external_body]
pub struct ExTagEnd(TagEnd);

/// The events that `pulldown_cmark::Parser::new_ext` yields for `markdown` with
/// strikethrough, tables and task lists enabled, one [`MdEvent`] per event.
pub uninterp spec fn markdown_events(markdown: Seq<char>) -> Seq<MdEvent>;

/// Parses markdown with `pulldown_cmark::Parser::new_ext` (strikethrough, tables,
/// task lists). The events are a function of the text alone; they are named,
/// not described.
#[verifier::external_body]
fn parse_markdown(markdown: &str) -> (r: Vec<MdEvent>)
    ensures
        r@ == markdown_events(markdown@),
{
    let opts = Options::ENABLE_STRIKETHROUGH | Options::ENABLE_TABLES | Options::ENABLE_TASKLISTS;
    Parser::new_ext(markdown, opts).map(event_of).collect()
}

/// One pulldown-cmark event as an [`MdEvent`] (variants the renderer ignores become `Other`).
#[verifier::external_body]
fn event_of(e: Event<'_>) -> MdEvent {
    match e {
        Event::Start(t) => MdEvent::Start(tag_of(t)),
        Event::End(t) => MdEvent::End(tag_end_of(t)),
        Event::Text(s) => MdEvent::Text(s.to_string()),
        Event::Code(s) => MdEvent::Code(s.to_string()),
        Event::Html(s) => MdEvent::Html(s.to_string()),
        Event::InlineHtml(s) => MdEvent::InlineHtml(s.to_string()),
        Event::SoftBreak => MdEvent::SoftBreak,
        Event::HardBreak => MdEvent::HardBreak,
        Event::Rule => MdEvent::Rule,
        _ => MdEvent::Other,
    }
}

/// One pulldown-cmark start tag as an [`MdTag`] (tags that open nothing become `Other`).
#[verifier::external_body]
fn tag_of(t: Tag<'_>) -> MdTag {
    match t {
        Tag::Heading { .. } => MdTag::Heading,
        Tag::BlockQuote(_) => MdTag::BlockQuote,
        Tag::CodeBlock(CodeBlockKind::Fenced(lang)) => MdTag::CodeBlock(Some(lang.to_string())),
        Tag::CodeBlock(CodeBlockKind::Indented) => MdTag::CodeBlock(None),
        Tag::List(start) => MdTag::List(start),
        Tag::Item => MdTag::Item,
        Tag::Emphasis => MdTag::Emphasis,
        Tag::Strong => MdTag::Strong,
        Tag::Strikethrough => MdTag::Strikethrough,
        Tag::Link { dest_url, .. } => MdTag::Link(dest_url.to_string()),
        _ => MdTag::Other,
    }
}

/// One pulldown-cmark end tag as an [`MdTagEnd`] (tags that close nothing become `Other`).
#[verifier::external_body]
fn tag_end_of(t: TagEnd) -> MdTagEnd {
    match t {
        TagEnd::Paragraph => MdTagEnd::Paragraph,
        TagEnd::Heading(_) => MdTagEnd::Heading,
        TagEnd::BlockQuote(_) => MdTagEnd::BlockQuote,
        TagEnd::CodeBlock => MdTagEnd::CodeBlock,
        TagEnd::List(_) => MdTagEnd::List,
        TagEnd::Table => MdTagEnd::Table,
        TagEnd::TableRow => MdTagEnd::TableRow,
        TagEnd::TableCell => MdTagEnd::TableCell,
        TagEnd::Emphasis => MdTagEnd::Emphasis,
        TagEnd::Strong => MdTagEnd::Strong,
        TagEnd::Strikethrough => MdTagEnd::Strikethrough,
        TagEnd::Link => MdTagEnd::Link,
        _ => MdTagEnd::Other,
    }
}

/// Converts common model markdown to Telegram HTML; `None` when the parsed
/// events hold a list item outside any list.
pub fn markdown_to_telegram_html(markdown: &str) -> (r: Option<String>)
    ensures
        match r {
            Some(h) => items_in_lists(markdown_events(markdown@)) && h@ == telegram_html(
                markdown_events(markdown@),
            ),
            None => !items_in_lists(markdown_events(markdown@)),
        },
{
    let events = parse_markdown(markdown);
    render_telegram_html(&events)
}

/// How a reply is formatted for Telegram.
#[derive(Debug, Clone, Copy, PartialEq, Eq, Structural)]
pub enum TelegramFormatMode {
    Plain,
    Html,
}

/// A reply ready to send: its text and the Bot API `parse_mode`, if any.
pub struct FormattedMessage {
    pub text: String,
    pub parse_mode: Option<&'static str>,
}

/// The text a reply is sent with in a format mode.
pub open spec fn formatted_text(markdown: Seq<char>, mode: TelegramFormatMode) -> Seq<char> {
    match mode {
        TelegramFormatMode::Plain => markdown,
        TelegramFormatMode::Html => if items_in_lists(markdown_events(markdown)) {
            telegram_html(markdown_events(markdown))
        } else {
            markdown
        },
    }
}

/// Formats a reply: plain text as is, or HTML rendered from its markdown (plain
/// text as is when the markdown cannot be rendered).
pub fn format_for_telegram(markdown: &str, mode: TelegramFormatMode) -> (r: FormattedMessage)
    ensures
        r.text@ == formatted_text(markdown@, mode),
        match mode {
            TelegramFormatMode::Plain => r.text@ == markdown@ && r.parse_mode is None,
            TelegramFormatMode::Html => if items_in_lists(markdown_events(markdown@)) {
                &&& r.text@ == telegram_html(markdown_events(markdown@))
                &&& r.parse_mode matches Some(m) && m@ == "HTML"@
            } else {
                r.text@ == markdown@ && r.parse_mode is None
            },
        },
{
    match mode {
        TelegramFormatMode::Plain => FormattedMessage { text: markdown.to_owned(), parse_mode: None },
        TelegramFormatMode::Html => match markdown_to_telegram_html(markdown) {
            Some(html) => FormattedMessage { text: html, parse_mode: Some("HTML") },
            None => FormattedMessage { text: markdown.to_owned(), parse_mode: None },
        },
    }
}

/// Strikethrough is written as `<s>…</s>`: outside a code block, its start
/// writes `<s>` and opens it, and a struck-through text followed by the end
/// comes out as `<s>`, the escaped text and `</s>`, leaving the open elements
/// as they were.
pub proof fn lemma_strikethrough_renders(st: RenderState, t: String)
    requires
        !st.in_pre,
    ensures
        step(st, MdEvent::Start(MdTag::Strikethrough)) == (RenderState {
            out: st.out + "<s>"@,
            stack: st.stack.push(OpenTag::Strike),
            ..st
        }),
        ({
            let s1 = step(st, MdEvent::Start(MdTag::Strikethrough));
            let s3 = step(step(s1, MdEvent::Text(t)), MdEvent::End(MdTagEnd::Strikethrough));
            &&& s3.out == st.out + "<s>"@ + escape_text(t@) + "</s>"@
            &&& s3.stack == st.stack
            &&& s3.counters == st.counters
            &&& !s3.in_pre
        }),
{
    reveal(step);
    let s1 = step(st, MdEvent::Start(MdTag::Strikethrough));
    let s2 = step(s1, MdEvent::Text(t));
    assert(s2.stack == st.stack.push(OpenTag::Strike));
    assert(last_open(s2.stack, OpenTag::Strike) == Some(st.stack.len() as int));
    assert(s2.stack.drop_last() =~= st.stack);
    assert(closings(s2.stack.drop_last(), st.stack.len() as int) =~= Seq::<char>::empty());
    assert(closings(s2.stack, st.stack.len() as int) == "</s>"@);
    assert(s2.stack.take(st.stack.len() as int) =~= st.stack);
    assert(st.out + "<s>"@ + escape_text(t@) + "</s>"@ =~= s2.out + "</s>"@);
}

} // verus!

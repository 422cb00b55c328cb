//! What Telegram makes of the HTML that is sent to it: how long it counts, and whether it is
//! accepted at all.

use vstd::prelude::*;

use crate::channel::telegram::render::{self, Telegram};
use crate::render::{split, verbatim, BlockView, SpanView};
use crate::text;

verus! {

/// Whether `mark` always counts as `count`, whatever follows it.
spec fn costs(mark: Seq<char>, count: nat) -> bool {
    forall|rest: Seq<char>| #[trigger]
        render::visible(mark + rest, false) == count + render::visible(rest, false)
}

proof fn costs_add_up(left: Seq<char>, a: nat, right: Seq<char>, b: nat)
    requires
        costs(left, a),
        costs(right, b),
    ensures
        costs(left + right, a + b),
{
    assert forall|rest: Seq<char>| #[trigger]
        render::visible((left + right) + rest, false) == a + b + render::visible(rest, false) by {
        assert((left + right) + rest =~= left + (right + rest));
    }
}

proof fn nothing_costs_nothing()
    ensures
        costs(Seq::empty(), 0),
{
    assert forall|rest: Seq<char>| #[trigger]
        render::visible(Seq::<char>::empty() + rest, false) == 0 + render::visible(
            rest,
            false,
        ) by {
        assert(Seq::<char>::empty() + rest =~= rest);
    }
}

/// Whether `text` ends no tag.
spec fn endless(text: Seq<char>) -> bool {
    forall|i: int| 0 <= i < text.len() ==> #[trigger] text[i] != '>'
}

proof fn a_tag_is_free_inside(inner: Seq<char>, rest: Seq<char>)
    requires
        endless(inner),
    ensures
        render::visible(inner + rest, true) == render::visible(rest, true),
    decreases inner.len(),
{
    if inner.len() == 0 {
        assert(inner + rest =~= rest);
    } else {
        assert(inner[0] != '>');
        assert((inner + rest).skip(1) =~= inner.skip(1) + rest);
        a_tag_is_free_inside(inner.skip(1), rest);
    }
}

proof fn a_tag_costs_nothing(mark: Seq<char>, inner: Seq<char>)
    requires
        mark == seq!['<'] + inner + seq!['>'],
        endless(inner),
    ensures
        costs(mark, 0),
{
    assert forall|rest: Seq<char>| #[trigger]
        render::visible(mark + rest, false) == 0 + render::visible(rest, false) by {
        let ended = seq!['>'] + rest;
        assert((mark + rest).skip(1) =~= inner + ended);
        a_tag_is_free_inside(inner, ended);
        assert(ended.skip(1) =~= rest);
    }
}

proof fn an_escaped_character_costs_what_it_shows(c: char)
    ensures
        costs(render::escaped_char(c), render::units(c)),
{
    reveal_strlit("&amp;");
    reveal_strlit("&lt;");
    reveal_strlit("&gt;");
    let mark = render::escaped_char(c);
    assert forall|rest: Seq<char>| #[trigger]
        render::visible(mark + rest, false) == render::units(c) + render::visible(rest, false) by {
        let whole = mark + rest;
        if c == '&' || c == '<' || c == '>' {
            reveal_with_fuel(render::after_entity, 6);
            assert(whole[0] == '&');
            if c == '&' {
                assert(whole.skip(1).skip(1).skip(1).skip(1).skip(1) =~= rest);
            } else {
                assert(whole.skip(1).skip(1).skip(1).skip(1) =~= rest);
            }
            assert(render::after_entity(whole.skip(1)) == rest);
        } else {
            assert(whole.skip(1) =~= rest);
        }
    }
}

proof fn escaped_text_costs_what_it_shows(text: Seq<char>)
    ensures
        costs(render::escaped(text), verbatim::utf16_units(text)),
    decreases text.len(),
{
    if text.len() == 0 {
        nothing_costs_nothing();
    } else {
        escaped_text_costs_what_it_shows(text.drop_last());
        an_escaped_character_costs_what_it_shows(text.last());
        costs_add_up(
            render::escaped(text.drop_last()),
            verbatim::utf16_units(text.drop_last()),
            render::escaped_char(text.last()),
            render::units(text.last()),
        );
    }
}

proof fn an_attribute_ends_no_tag(text: Seq<char>)
    ensures
        endless(render::attribute(text)),
    decreases text.len(),
{
    if text.len() > 0 {
        reveal_strlit("&amp;");
        reveal_strlit("&lt;");
        reveal_strlit("&gt;");
        reveal_strlit("&quot;");
        an_attribute_ends_no_tag(text.drop_last());
        let before = render::attribute(text.drop_last());
        let whole = render::attribute(text);
        assert forall|i: int| 0 <= i < whole.len() implies #[trigger] whole[i] != '>' by {
            if i < before.len() {
                assert(whole[i] == before[i]);
            } else {
                assert(whole[i] == render::attribute_char(text.last())[i - before.len()]);
            }
        }
    }
}

/// The inside of the tag that opens a link.
spec fn link_inside(link: Seq<char>) -> Seq<char> {
    "a href=\""@ + render::attribute(link) + "\""@
}

/// The inside of the tag that opens code of a language.
spec fn language_inside(language: Seq<char>) -> Seq<char> {
    "code class=\"language-"@ + render::attribute(language) + "\""@
}

proof fn the_link_tag(link: Seq<char>)
    ensures
        render::link_open(Some(link)) == seq!['<'] + link_inside(link) + seq!['>'],
        endless(link_inside(link)),
{
    reveal_strlit("<a href=\"");
    reveal_strlit("\">");
    reveal_strlit("a href=\"");
    reveal_strlit("\"");
    an_attribute_ends_no_tag(link);
    assert(render::link_open(Some(link)) =~= seq!['<'] + link_inside(link) + seq!['>']);
}

proof fn the_language_tag(language: Seq<char>)
    ensures
        "<pre><code class=\"language-"@ + render::attribute(language) + "\">"@ == "<pre>"@ + (
        seq!['<'] + language_inside(language) + seq!['>']),
        endless(language_inside(language)),
{
    reveal_strlit("<pre><code class=\"language-");
    reveal_strlit("<pre>");
    reveal_strlit("\">");
    reveal_strlit("code class=\"language-");
    reveal_strlit("\"");
    an_attribute_ends_no_tag(language);
    assert("<pre><code class=\"language-"@ + render::attribute(language) + "\">"@ =~= "<pre>"@ + (
    seq!['<'] + language_inside(language) + seq!['>']));
}

/// The tag that holds `inner` and nothing else.
spec fn tag(inner: Seq<char>) -> Seq<char> {
    seq!['<'] + inner + seq!['>']
}

proof fn the_plain_tags()
    ensures
        "<b>"@ == tag("b"@),
        "</b>"@ == tag("/b"@),
        "<i>"@ == tag("i"@),
        "</i>"@ == tag("/i"@),
        "<s>"@ == tag("s"@),
        "</s>"@ == tag("/s"@),
        "<code>"@ == tag("code"@),
        "</code>"@ == tag("/code"@),
        "<pre>"@ == tag("pre"@),
        "</pre>"@ == tag("/pre"@),
        "</code></pre>"@ == tag("/code"@) + tag("/pre"@),
        "</a>"@ == tag("/a"@),
        "<blockquote>"@ == tag("blockquote"@),
        "</blockquote>"@ == tag("/blockquote"@),
{
    reveal_strlit("<b>");
    reveal_strlit("</b>");
    reveal_strlit("<i>");
    reveal_strlit("</i>");
    reveal_strlit("<s>");
    reveal_strlit("</s>");
    reveal_strlit("<code>");
    reveal_strlit("</code>");
    reveal_strlit("<pre>");
    reveal_strlit("</pre>");
    reveal_strlit("</code></pre>");
    reveal_strlit("</a>");
    reveal_strlit("<blockquote>");
    reveal_strlit("</blockquote>");
    reveal_strlit("b");
    reveal_strlit("/b");
    reveal_strlit("i");
    reveal_strlit("/i");
    reveal_strlit("s");
    reveal_strlit("/s");
    reveal_strlit("code");
    reveal_strlit("/code");
    reveal_strlit("pre");
    reveal_strlit("/pre");
    reveal_strlit("/a");
    reveal_strlit("blockquote");
    reveal_strlit("/blockquote");
    assert("<b>"@ =~= tag("b"@));
    assert("</b>"@ =~= tag("/b"@));
    assert("<i>"@ =~= tag("i"@));
    assert("</i>"@ =~= tag("/i"@));
    assert("<s>"@ =~= tag("s"@));
    assert("</s>"@ =~= tag("/s"@));
    assert("<code>"@ =~= tag("code"@));
    assert("</code>"@ =~= tag("/code"@));
    assert("<pre>"@ =~= tag("pre"@));
    assert("</pre>"@ =~= tag("/pre"@));
    assert("</code></pre>"@ =~= tag("/code"@) + tag("/pre"@));
    assert("</a>"@ =~= tag("/a"@));
    assert("<blockquote>"@ =~= tag("blockquote"@));
    assert("</blockquote>"@ =~= tag("/blockquote"@));
}

proof fn no_plain_tag_is_ended_early()
    ensures
        endless("b"@),
        endless("/b"@),
        endless("i"@),
        endless("/i"@),
        endless("s"@),
        endless("/s"@),
        endless("code"@),
        endless("/code"@),
        endless("pre"@),
        endless("/pre"@),
        endless("/a"@),
        endless("blockquote"@),
        endless("/blockquote"@),
{
    reveal_strlit("b");
    reveal_strlit("/b");
    reveal_strlit("i");
    reveal_strlit("/i");
    reveal_strlit("s");
    reveal_strlit("/s");
    reveal_strlit("code");
    reveal_strlit("/code");
    reveal_strlit("pre");
    reveal_strlit("/pre");
    reveal_strlit("/a");
    reveal_strlit("blockquote");
    reveal_strlit("/blockquote");
}

proof fn an_optional_tag_costs_nothing(on: bool, inner: Seq<char>)
    requires
        endless(inner),
    ensures
        costs(render::when(on, tag(inner)), 0),
{
    a_tag_costs_nothing(tag(inner), inner);
    nothing_costs_nothing();
}

/// What surrounds the text of a span: the marks in front of it and those behind it.
spec fn marks(span: SpanView, bold_already_open: bool) -> (Seq<char>, Seq<char>) {
    let bold = span.style.bold && !bold_already_open;
    (
        render::link_open(span.link) + render::when(bold, "<b>"@) + render::when(
            span.style.italic,
            "<i>"@,
        ) + render::when(span.style.strikethrough, "<s>"@) + render::when(
            span.style.code,
            "<code>"@,
        ),
        render::when(span.style.code, "</code>"@) + render::when(
            span.style.strikethrough,
            "</s>"@,
        ) + render::when(span.style.italic, "</i>"@) + render::when(bold, "</b>"@) + render::when(
            span.link is Some,
            "</a>"@,
        ),
    )
}

proof fn joining_regroups(front: Seq<char>, middle: Seq<char>, end: Seq<char>)
    ensures
        front + middle + end == front + (middle + end),
{
    assert(front + middle + end =~= front + (middle + end));
}

proof fn a_span_is_its_text_between_marks(span: SpanView, bold_already_open: bool)
    ensures
        render::span_text(span, bold_already_open) == marks(span, bold_already_open).0
            + render::escaped(span.text) + marks(span, bold_already_open).1,
{
    let bold = span.style.bold && !bold_already_open;
    let front = marks(span, bold_already_open).0 + render::escaped(span.text);
    let code = render::when(span.style.code, "</code>"@);
    let struck = code + render::when(span.style.strikethrough, "</s>"@);
    let slanted = struck + render::when(span.style.italic, "</i>"@);
    let bolded = slanted + render::when(bold, "</b>"@);
    joining_regroups(front, code, render::when(span.style.strikethrough, "</s>"@));
    joining_regroups(front, struck, render::when(span.style.italic, "</i>"@));
    joining_regroups(front, slanted, render::when(bold, "</b>"@));
    joining_regroups(front, bolded, render::when(span.link is Some, "</a>"@));
}

proof fn a_span_costs_its_text(span: SpanView, bold_already_open: bool)
    ensures
        costs(render::span_text(span, bold_already_open), verbatim::utf16_units(span.text)),
{
    let bold = span.style.bold && !bold_already_open;
    let style = span.style;
    the_plain_tags();
    no_plain_tag_is_ended_early();
    nothing_costs_nothing();
    if let Some(link) = span.link {
        the_link_tag(link);
        a_tag_costs_nothing(render::link_open(span.link), link_inside(link));
    }
    an_optional_tag_costs_nothing(bold, "b"@);
    an_optional_tag_costs_nothing(style.italic, "i"@);
    an_optional_tag_costs_nothing(style.strikethrough, "s"@);
    an_optional_tag_costs_nothing(style.code, "code"@);
    an_optional_tag_costs_nothing(style.code, "/code"@);
    an_optional_tag_costs_nothing(style.strikethrough, "/s"@);
    an_optional_tag_costs_nothing(style.italic, "/i"@);
    an_optional_tag_costs_nothing(bold, "/b"@);
    an_optional_tag_costs_nothing(span.link is Some, "/a"@);
    let (before, after) = marks(span, bold_already_open);
    let opened = render::link_open(span.link);
    let with_bold = opened + render::when(bold, "<b>"@);
    let with_italic = with_bold + render::when(style.italic, "<i>"@);
    let with_strike = with_italic + render::when(style.strikethrough, "<s>"@);
    costs_add_up(opened, 0, render::when(bold, "<b>"@), 0);
    costs_add_up(with_bold, 0, render::when(style.italic, "<i>"@), 0);
    costs_add_up(with_italic, 0, render::when(style.strikethrough, "<s>"@), 0);
    costs_add_up(with_strike, 0, render::when(style.code, "<code>"@), 0);
    let code = render::when(style.code, "</code>"@);
    let without_strike = code + render::when(style.strikethrough, "</s>"@);
    let without_italic = without_strike + render::when(style.italic, "</i>"@);
    let without_bold = without_italic + render::when(bold, "</b>"@);
    costs_add_up(code, 0, render::when(style.strikethrough, "</s>"@), 0);
    costs_add_up(without_strike, 0, render::when(style.italic, "</i>"@), 0);
    costs_add_up(without_italic, 0, render::when(bold, "</b>"@), 0);
    costs_add_up(without_bold, 0, render::when(span.link is Some, "</a>"@), 0);
    escaped_text_costs_what_it_shows(span.text);
    let text = render::escaped(span.text);
    costs_add_up(before, 0, text, verbatim::utf16_units(span.text));
    costs_add_up(before + text, verbatim::utf16_units(span.text), after, 0);
    a_span_is_its_text_between_marks(span, bold_already_open);
}

proof fn units_add_up(left: Seq<char>, right: Seq<char>)
    ensures
        verbatim::utf16_units(left + right) == verbatim::utf16_units(left) + verbatim::utf16_units(
            right,
        ),
    decreases right.len(),
{
    if right.len() == 0 {
        assert(left + right =~= left);
    } else {
        assert((left + right).drop_last() =~= left + right.drop_last());
        units_add_up(left, right.drop_last());
    }
}

proof fn spans_cost_their_text(spans: Seq<SpanView>, bold_already_open: bool)
    ensures
        costs(
            render::spans_text(spans, bold_already_open),
            verbatim::utf16_units(verbatim::characters(split::spans_cells(spans))),
        ),
    decreases spans.len(),
{
    if spans.len() == 0 {
        nothing_costs_nothing();
        assert(verbatim::characters(split::spans_cells(spans)) =~= Seq::empty());
    } else {
        let before = spans.drop_last();
        let last = spans.last();
        spans_cost_their_text(before, bold_already_open);
        a_span_costs_its_text(last, bold_already_open);
        let shown = verbatim::characters(split::spans_cells(before));
        costs_add_up(
            render::spans_text(before, bold_already_open),
            verbatim::utf16_units(shown),
            render::span_text(last, bold_already_open),
            verbatim::utf16_units(last.text),
        );
        assert(verbatim::characters(split::spans_cells(spans)) =~= shown + last.text);
        units_add_up(shown, last.text);
    }
}

/// How much of a message's budget the characters of a block take up.
pub open spec fn block_units(block: BlockView) -> nat {
    verbatim::utf16_units(verbatim::characters(split::cells(block)))
}

proof fn wrapping_costs_nothing(open: Seq<char>, body: Seq<char>, count: nat, close: Seq<char>)
    requires
        costs(open, 0),
        costs(body, count),
        costs(close, 0),
    ensures
        costs(open + body + close, count),
{
    costs_add_up(open, 0, body, count);
    costs_add_up(open + body, count, close, 0);
}

proof fn a_block_costs_its_text(block: BlockView)
    ensures
        costs(render::block_text(block), block_units(block)),
{
    the_plain_tags();
    no_plain_tag_is_ended_early();
    match block {
        BlockView::Text { spans, quoted, .. } => {
            spans_cost_their_text(spans, false);
            an_optional_tag_costs_nothing(quoted, "blockquote"@);
            an_optional_tag_costs_nothing(quoted, "/blockquote"@);
            wrapping_costs_nothing(
                render::when(quoted, "<blockquote>"@),
                render::spans_text(spans, false),
                block_units(block),
                render::when(quoted, "</blockquote>"@),
            );
        },
        BlockView::Heading { spans, .. } => {
            spans_cost_their_text(spans, true);
            a_tag_costs_nothing("<b>"@, "b"@);
            a_tag_costs_nothing("</b>"@, "/b"@);
            wrapping_costs_nothing(
                "<b>"@,
                render::spans_text(spans, true),
                block_units(block),
                "</b>"@,
            );
        },
        BlockView::Pre { language, text } => {
            escaped_text_costs_what_it_shows(text);
            assert(verbatim::characters(split::cells(block)) =~= text);
            a_tag_costs_nothing("<pre>"@, "pre"@);
            a_tag_costs_nothing("</pre>"@, "/pre"@);
            a_tag_costs_nothing(tag("/code"@), "/code"@);
            costs_add_up(tag("/code"@), 0, tag("/pre"@), 0);
            match language {
                Some(language) => {
                    the_language_tag(language);
                    let inside = tag(language_inside(language));
                    a_tag_costs_nothing(inside, language_inside(language));
                    costs_add_up("<pre>"@, 0, inside, 0);
                    wrapping_costs_nothing(
                        "<pre>"@ + inside,
                        render::escaped(text),
                        block_units(block),
                        "</code></pre>"@,
                    );
                },
                None => {
                    wrapping_costs_nothing(
                        "<pre>"@,
                        render::escaped(text),
                        block_units(block),
                        "</pre>"@,
                    );
                },
            }
        },
    }
}

/// Markup costs nothing against the limit: a block counts as the characters that it shows, in
/// UTF-16 code units, whatever tags, addresses and escapes it is sent with.
pub proof fn markup_costs_nothing(block: BlockView)
    ensures
        render::visible(render::block_text(block), false) == block_units(block),
{
    a_block_costs_its_text(block);
    let html = render::block_text(block);
    assert(html + Seq::<char>::empty() =~= html);
    assert(render::visible(html + Seq::<char>::empty(), false) == block_units(block)
        + render::visible(Seq::<char>::empty(), false));
}

/// A single character takes up two units at most, whatever marks surround it.
pub proof fn a_single_character_is_short(block: BlockView)
    requires
        split::indivisible(block),
    ensures
        render::visible(render::group_text(seq![block]), false) <= 2,
{
    markup_costs_nothing(block);
    let shown = verbatim::characters(split::cells(block));
    if shown.len() > 0 {
        assert(verbatim::utf16_units(shown.drop_last()) == 0);
    }
}

/// Every message that a reply is rendered into stays within the limit, wherever the limit has room
/// for a single character.
pub proof fn every_message_stays_within_the_limit(blocks: Seq<BlockView>, limit: usize, i: int)
    requires
        limit >= 2,
        0 <= i < split::messages_of::<Telegram>(blocks, limit).len(),
    ensures
        render::visible(split::messages_of::<Telegram>(blocks, limit)[i], false) <= limit,
{
    split::every_message_stays_within_the_limit::<Telegram>(blocks, limit, i);
}

/// Nothing that shows is lost, changed or moved when a reply is split, the links of its text included:
/// what they lead to costs nothing, so no link is ever too long.
pub proof fn nothing_visible_is_lost(blocks: Seq<BlockView>, limit: usize)
    ensures
        split::groups_ink(split::groups_of::<Telegram>(blocks, limit)) == split::ink(blocks),
{
    split::nothing_visible_is_lost::<Telegram>(blocks, limit);
    assert(split::all_sent::<Telegram>(blocks, limit) =~= blocks);
}

/// Whether Telegram accepts a tag of that name.
pub open spec fn is_accepted(name: Seq<char>) -> bool {
    name == "b"@ || name == "i"@ || name == "u"@ || name == "s"@ || name == "code"@ || name
        == "pre"@ || name == "a"@ || name == "blockquote"@ || name == "tg-spoiler"@
}

/// Whether `html` begins with an entity.
pub open spec fn begins_entity(html: Seq<char>) -> bool {
    text::begins(html, "&amp;"@) || text::begins(html, "&lt;"@) || text::begins(html, "&gt;"@)
        || text::begins(html, "&quot;"@)
}

/// The tags that are open once `html` has been read, the innermost last, given those open before
/// it. There is no such thing where Telegram rejects it: a tag that it does not know or that does
/// not end, a closing tag that is not that of the innermost open one, or a character of markup that
/// stands for itself.
pub open spec fn open_after(html: Seq<char>, open: Seq<Seq<char>>) -> Option<Seq<Seq<char>>>
    decreases html.len(),
{
    if html.len() == 0 {
        Some(open)
    } else if html[0] == '<' {
        match text::parts_at(html.skip(1), '>') {
            None => None,
            Some((inner, rest)) => if inner.len() > 0 && inner[0] == '/' {
                if open.len() > 0 && open.last() == inner.skip(1) {
                    open_after(rest, open.drop_last())
                } else {
                    None
                }
            } else if is_accepted(text::until(inner, ' ')) {
                open_after(rest, open.push(text::until(inner, ' ')))
            } else {
                None
            },
        }
    } else if html[0] == '>' || (html[0] == '&' && !begins_entity(html)) {
        None
    } else {
        open_after(html.skip(1), open)
    }
}

/// Whether Telegram accepts `html`: every tag is one it knows, and they close in the reverse of the
/// order in which they open, with none left open.
pub open spec fn is_well_formed(html: Seq<char>) -> bool {
    open_after(html, Seq::empty()) == Some(Seq::<Seq<char>>::empty())
}

/// Whether `mark` leaves open exactly what was open before it, whatever that was.
#[verifier::opaque]
spec fn neutral(mark: Seq<char>) -> bool {
    forall|rest: Seq<char>, open: Seq<Seq<char>>| #[trigger]
        open_after(mark + rest, open) == open_after(rest, open)
}

/// Whether `mark` opens a tag of that name.
#[verifier::opaque]
spec fn opens(mark: Seq<char>, name: Seq<char>) -> bool {
    forall|rest: Seq<char>, open: Seq<Seq<char>>| #[trigger]
        open_after(mark + rest, open) == open_after(rest, open.push(name))
}

/// Whether `mark` closes a tag of that name.
#[verifier::opaque]
spec fn closes(mark: Seq<char>, name: Seq<char>) -> bool {
    forall|rest: Seq<char>, open: Seq<Seq<char>>|
        open.len() > 0 && open.last() == name ==> #[trigger] open_after(mark + rest, open)
            == open_after(rest, open.drop_last())
}

proof fn nothing_is_neutral()
    ensures
        neutral(Seq::empty()),
{
    reveal(neutral);
    assert forall|rest: Seq<char>, open: Seq<Seq<char>>| #[trigger]
        open_after(Seq::<char>::empty() + rest, open) == open_after(rest, open) by {
        assert(Seq::<char>::empty() + rest =~= rest);
    }
}

proof fn neutral_after_neutral(left: Seq<char>, right: Seq<char>)
    requires
        neutral(left),
        neutral(right),
    ensures
        neutral(left + right),
{
    reveal(neutral);
    assert forall|rest: Seq<char>, open: Seq<Seq<char>>| #[trigger]
        open_after((left + right) + rest, open) == open_after(rest, open) by {
        assert((left + right) + rest =~= left + (right + rest));
    }
}

proof fn wrapping_is_neutral(start: Seq<char>, body: Seq<char>, end: Seq<char>, name: Seq<char>)
    requires
        opens(start, name),
        neutral(body),
        closes(end, name),
    ensures
        neutral(start + body + end),
{
    reveal(neutral);
    reveal(opens);
    reveal(closes);
    assert forall|rest: Seq<char>, open: Seq<Seq<char>>| #[trigger]
        open_after((start + body + end) + rest, open) == open_after(rest, open) by {
        assert((start + body + end) + rest =~= start + (body + (end + rest)));
        assert(open_after(start + (body + (end + rest)), open) == open_after(
            body + (end + rest),
            open.push(name),
        ));
        assert(open_after(body + (end + rest), open.push(name)) == open_after(
            end + rest,
            open.push(name),
        ));
        assert(open.push(name).drop_last() =~= open);
        assert(open_after(end + rest, open.push(name)) == open_after(
            rest,
            open.push(name).drop_last(),
        ));
    }
}

/// Where wrapping is optional, so is what wraps.
proof fn wrapping_if_wanted(
    on: bool,
    start: Seq<char>,
    body: Seq<char>,
    end: Seq<char>,
    name: Seq<char>,
)
    requires
        opens(start, name),
        neutral(body),
        closes(end, name),
    ensures
        neutral(render::when(on, start) + body + render::when(on, end)),
{
    if on {
        wrapping_is_neutral(start, body, end, name);
    } else {
        assert(render::when(on, start) + body + render::when(on, end) =~= body);
    }
}

proof fn a_tag_is_read_to_its_end(inner: Seq<char>, rest: Seq<char>)
    requires
        endless(inner),
    ensures
        text::parts_at((tag(inner) + rest).skip(1), '>') == Some((inner, rest)),
{
    let after = (tag(inner) + rest).skip(1);
    assert(after =~= inner + (seq!['>'] + rest));
    text::until_is_a_prefix(after, '>');
    let first = text::until(after, '>');
    if first.len() < inner.len() {
        assert(inner[first.len() as int] != '>');
        assert(after[first.len() as int] == inner[first.len() as int]);
    } else if first.len() > inner.len() {
        assert(after[inner.len() as int] == '>');
    }
    assert(first =~= inner);
    assert(after.skip((inner.len() + 1) as int) =~= rest);
}

proof fn an_opening_tag_opens(inner: Seq<char>, name: Seq<char>)
    requires
        endless(inner),
        inner.len() > 0,
        inner[0] != '/',
        text::until(inner, ' ') == name,
        is_accepted(name),
    ensures
        opens(tag(inner), name),
{
    reveal(opens);
    assert forall|rest: Seq<char>, open: Seq<Seq<char>>| #[trigger]
        open_after(tag(inner) + rest, open) == open_after(rest, open.push(name)) by {
        a_tag_is_read_to_its_end(inner, rest);
        assert((tag(inner) + rest)[0] == '<');
    }
}

proof fn a_closing_tag_closes(inner: Seq<char>, name: Seq<char>)
    requires
        endless(inner),
        inner == seq!['/'] + name,
    ensures
        closes(tag(inner), name),
{
    reveal(closes);
    assert forall|rest: Seq<char>, open: Seq<Seq<char>>|
        open.len() > 0 && open.last() == name implies #[trigger] open_after(tag(inner) + rest, open)
        == open_after(rest, open.drop_last()) by {
        a_tag_is_read_to_its_end(inner, rest);
        assert((tag(inner) + rest)[0] == '<');
        assert(inner.skip(1) =~= name);
    }
}

proof fn a_name_without_attributes(name: Seq<char>)
    requires
        forall|i: int| 0 <= i < name.len() ==> #[trigger] name[i] != ' ',
    ensures
        text::until(name, ' ') == name,
{
    text::until_is_a_prefix(name, ' ');
    if text::until(name, ' ').len() < name.len() {
        assert(name[text::until(name, ' ').len() as int] != ' ');
    }
    assert(text::until(name, ' ') =~= name);
}

proof fn a_name_before_attributes(name: Seq<char>, attributes: Seq<char>)
    requires
        forall|i: int| 0 <= i < name.len() ==> #[trigger] name[i] != ' ',
    ensures
        text::until(name + seq![' '] + attributes, ' ') == name,
{
    let whole = name + seq![' '] + attributes;
    text::until_is_a_prefix(whole, ' ');
    let first = text::until(whole, ' ');
    if first.len() < name.len() {
        assert(whole[first.len() as int] == name[first.len() as int]);
    } else if first.len() > name.len() {
        assert(whole[name.len() as int] == ' ');
    }
    assert(first =~= name);
}

proof fn the_plain_tags_open_and_close()
    ensures
        opens("<b>"@, "b"@),
        closes("</b>"@, "b"@),
        opens("<i>"@, "i"@),
        closes("</i>"@, "i"@),
        opens("<s>"@, "s"@),
        closes("</s>"@, "s"@),
        opens("<code>"@, "code"@),
        closes("</code>"@, "code"@),
        opens("<pre>"@, "pre"@),
        closes("</pre>"@, "pre"@),
        closes("</a>"@, "a"@),
        opens("<blockquote>"@, "blockquote"@),
        closes("</blockquote>"@, "blockquote"@),
{
    the_plain_tags();
    no_plain_tag_is_ended_early();
    reveal_strlit("b");
    reveal_strlit("/b");
    reveal_strlit("i");
    reveal_strlit("/i");
    reveal_strlit("s");
    reveal_strlit("/s");
    reveal_strlit("code");
    reveal_strlit("/code");
    reveal_strlit("pre");
    reveal_strlit("/pre");
    reveal_strlit("a");
    reveal_strlit("/a");
    reveal_strlit("blockquote");
    reveal_strlit("/blockquote");
    assert("/b"@ =~= seq!['/'] + "b"@);
    assert("/i"@ =~= seq!['/'] + "i"@);
    assert("/s"@ =~= seq!['/'] + "s"@);
    assert("/code"@ =~= seq!['/'] + "code"@);
    assert("/pre"@ =~= seq!['/'] + "pre"@);
    assert("/a"@ =~= seq!['/'] + "a"@);
    assert("/blockquote"@ =~= seq!['/'] + "blockquote"@);
    a_closing_tag_closes("/b"@, "b"@);
    a_closing_tag_closes("/i"@, "i"@);
    a_closing_tag_closes("/s"@, "s"@);
    a_closing_tag_closes("/code"@, "code"@);
    a_closing_tag_closes("/pre"@, "pre"@);
    a_closing_tag_closes("/a"@, "a"@);
    a_closing_tag_closes("/blockquote"@, "blockquote"@);
    a_name_without_attributes("b"@);
    a_name_without_attributes("i"@);
    a_name_without_attributes("s"@);
    a_name_without_attributes("code"@);
    a_name_without_attributes("pre"@);
    a_name_without_attributes("blockquote"@);
    an_opening_tag_opens("b"@, "b"@);
    an_opening_tag_opens("i"@, "i"@);
    an_opening_tag_opens("s"@, "s"@);
    an_opening_tag_opens("code"@, "code"@);
    an_opening_tag_opens("pre"@, "pre"@);
    an_opening_tag_opens("blockquote"@, "blockquote"@);
}

proof fn a_link_opens(link: Seq<char>)
    ensures
        opens(render::link_open(Some(link)), "a"@),
{
    reveal_strlit("a");
    reveal_strlit("a href=\"");
    the_link_tag(link);
    let attributes = link_inside(link).skip(2);
    assert(link_inside(link) =~= "a"@ + seq![' '] + attributes);
    a_name_before_attributes("a"@, attributes);
    an_opening_tag_opens(link_inside(link), "a"@);
}

proof fn a_language_opens(language: Seq<char>)
    ensures
        opens(tag(language_inside(language)), "code"@),
{
    reveal_strlit("code");
    reveal_strlit("code class=\"language-");
    the_language_tag(language);
    let attributes = language_inside(language).skip(5);
    assert(language_inside(language) =~= "code"@ + seq![' '] + attributes);
    a_name_before_attributes("code"@, attributes);
    an_opening_tag_opens(language_inside(language), "code"@);
}

/// Whether `c` is not markup of HTML.
spec fn is_plain(c: char) -> bool {
    c != '<' && c != '>' && c != '&'
}

proof fn plain_text_is_neutral(mark: Seq<char>)
    requires
        forall|i: int| 0 <= i < mark.len() ==> is_plain(#[trigger] mark[i]),
    ensures
        neutral(mark),
    decreases mark.len(),
{
    reveal(neutral);
    if mark.len() == 0 {
        nothing_is_neutral();
        assert(mark =~= Seq::empty());
    } else {
        let tail = mark.skip(1);
        assert forall|i: int| 0 <= i < tail.len() implies is_plain(#[trigger] tail[i]) by {
            assert(tail[i] == mark[i + 1]);
        }
        plain_text_is_neutral(tail);
        assert(is_plain(mark[0]));
        assert forall|rest: Seq<char>, open: Seq<Seq<char>>| #[trigger]
            open_after(mark + rest, open) == open_after(rest, open) by {
            assert((mark + rest)[0] == mark[0]);
            assert((mark + rest).skip(1) =~= tail + rest);
            assert(open_after(tail + rest, open) == open_after(rest, open));
        }
    }
}

proof fn an_entity_is_neutral(mark: Seq<char>)
    requires
        mark == "&amp;"@ || mark == "&lt;"@ || mark == "&gt;"@,
    ensures
        neutral(mark),
{
    reveal(neutral);
    reveal_strlit("&amp;");
    reveal_strlit("&lt;");
    reveal_strlit("&gt;");
    let tail = mark.skip(1);
    plain_text_is_neutral(tail);
    assert forall|rest: Seq<char>, open: Seq<Seq<char>>| #[trigger]
        open_after(mark + rest, open) == open_after(rest, open) by {
        assert((mark + rest)[0] == '&');
        assert((mark + rest).take(mark.len() as int) =~= mark);
        assert((mark + rest).skip(1) =~= tail + rest);
        assert(open_after(tail + rest, open) == open_after(rest, open));
    }
}

proof fn escaped_text_is_neutral(text: Seq<char>)
    ensures
        neutral(render::escaped(text)),
    decreases text.len(),
{
    if text.len() == 0 {
        nothing_is_neutral();
    } else {
        escaped_text_is_neutral(text.drop_last());
        let c = text.last();
        if is_plain(c) {
            plain_text_is_neutral(seq![c]);
        } else {
            an_entity_is_neutral(render::escaped_char(c));
        }
        neutral_after_neutral(render::escaped(text.drop_last()), render::escaped_char(c));
    }
}

proof fn wrapping_regroups(before: Seq<char>, start: Seq<char>, body: Seq<char>, end: Seq<char>)
    ensures
        before + (start + body + end) == before + start + body + end,
{
    assert(before + (start + body + end) =~= before + start + body + end);
}

proof fn a_span_is_neutral(span: SpanView, bold_already_open: bool)
    ensures
        neutral(render::span_text(span, bold_already_open)),
{
    let style = span.style;
    let bold = style.bold && !bold_already_open;
    the_plain_tags_open_and_close();
    escaped_text_is_neutral(span.text);
    let text = render::escaped(span.text);
    let coded = render::when(style.code, "<code>"@) + text + render::when(style.code, "</code>"@);
    wrapping_if_wanted(style.code, "<code>"@, text, "</code>"@, "code"@);
    let struck = render::when(style.strikethrough, "<s>"@) + coded + render::when(
        style.strikethrough,
        "</s>"@,
    );
    wrapping_if_wanted(style.strikethrough, "<s>"@, coded, "</s>"@, "s"@);
    let slanted = render::when(style.italic, "<i>"@) + struck + render::when(
        style.italic,
        "</i>"@,
    );
    wrapping_if_wanted(style.italic, "<i>"@, struck, "</i>"@, "i"@);
    let heavy = render::when(bold, "<b>"@) + slanted + render::when(bold, "</b>"@);
    wrapping_if_wanted(bold, "<b>"@, slanted, "</b>"@, "b"@);
    let linked = render::link_open(span.link);
    let whole = linked + heavy + render::when(span.link is Some, "</a>"@);
    match span.link {
        Some(link) => {
            a_link_opens(link);
            wrapping_is_neutral(linked, heavy, "</a>"@, "a"@);
        },
        None => {
            assert(whole =~= heavy);
        },
    }
    let with_bold = linked + render::when(bold, "<b>"@);
    let with_italic = with_bold + render::when(style.italic, "<i>"@);
    let with_strike = with_italic + render::when(style.strikethrough, "<s>"@);
    wrapping_regroups(
        with_strike,
        render::when(style.code, "<code>"@),
        text,
        render::when(style.code, "</code>"@),
    );
    wrapping_regroups(
        with_italic,
        render::when(style.strikethrough, "<s>"@),
        coded,
        render::when(style.strikethrough, "</s>"@),
    );
    wrapping_regroups(
        with_bold,
        render::when(style.italic, "<i>"@),
        struck,
        render::when(style.italic, "</i>"@),
    );
    wrapping_regroups(
        linked,
        render::when(bold, "<b>"@),
        slanted,
        render::when(bold, "</b>"@),
    );
    assert(render::span_text(span, bold_already_open) == whole);
}

proof fn spans_are_neutral(spans: Seq<SpanView>, bold_already_open: bool)
    ensures
        neutral(render::spans_text(spans, bold_already_open)),
    decreases spans.len(),
{
    if spans.len() == 0 {
        nothing_is_neutral();
    } else {
        spans_are_neutral(spans.drop_last(), bold_already_open);
        a_span_is_neutral(spans.last(), bold_already_open);
        neutral_after_neutral(
            render::spans_text(spans.drop_last(), bold_already_open),
            render::span_text(spans.last(), bold_already_open),
        );
    }
}

proof fn a_block_is_neutral(block: BlockView)
    ensures
        neutral(render::block_text(block)),
{
    the_plain_tags_open_and_close();
    match block {
        BlockView::Text { spans, quoted, .. } => {
            spans_are_neutral(spans, false);
            wrapping_if_wanted(
                quoted,
                "<blockquote>"@,
                render::spans_text(spans, false),
                "</blockquote>"@,
                "blockquote"@,
            );
        },
        BlockView::Heading { spans, .. } => {
            spans_are_neutral(spans, true);
            wrapping_is_neutral("<b>"@, render::spans_text(spans, true), "</b>"@, "b"@);
        },
        BlockView::Pre { language, text } => {
            escaped_text_is_neutral(text);
            match language {
                Some(language) => {
                    the_plain_tags();
                    the_language_tag(language);
                    a_language_opens(language);
                    let inside = tag(language_inside(language));
                    let code = inside + render::escaped(text) + "</code>"@;
                    wrapping_is_neutral(inside, render::escaped(text), "</code>"@, "code"@);
                    wrapping_is_neutral("<pre>"@, code, "</pre>"@, "pre"@);
                    assert(render::block_text(block) =~= "<pre>"@ + code + "</pre>"@);
                },
                None => {
                    wrapping_is_neutral("<pre>"@, render::escaped(text), "</pre>"@, "pre"@);
                },
            }
        },
    }
}

proof fn a_group_is_neutral(blocks: Seq<BlockView>)
    ensures
        neutral(render::group_text(blocks)),
    decreases blocks.len(),
{
    reveal_strlit("\n");
    reveal_strlit("\n\n");
    if blocks.len() == 0 {
        nothing_is_neutral();
    } else if blocks.len() == 1 {
        a_block_is_neutral(blocks[0]);
    } else {
        let before = blocks.drop_last();
        let between = crate::render::separator(before.last(), blocks.last());
        a_group_is_neutral(before);
        a_block_is_neutral(blocks.last());
        plain_text_is_neutral(between);
        neutral_after_neutral(render::group_text(before), between);
        neutral_after_neutral(
            render::group_text(before) + between,
            render::block_text(blocks.last()),
        );
    }
}

/// Telegram accepts whatever blocks are written as: styles nest, and every tag is one it knows.
pub proof fn whatever_is_written_is_well_formed(blocks: Seq<BlockView>)
    ensures
        is_well_formed(render::group_text(blocks)),
{
    reveal(neutral);
    a_group_is_neutral(blocks);
    let html = render::group_text(blocks);
    assert(html + Seq::<char>::empty() =~= html);
    assert(open_after(html + Seq::<char>::empty(), Seq::empty()) == open_after(
        Seq::<char>::empty(),
        Seq::empty(),
    ));
}

/// Splitting never breaks a tag in half: every message of a long reply is well formed by itself, so
/// a style that spans a cut is closed before it and opened again after it.
pub proof fn every_message_is_well_formed(blocks: Seq<BlockView>, limit: usize, i: int)
    requires
        0 <= i < split::messages_of::<Telegram>(blocks, limit).len(),
    ensures
        is_well_formed(split::messages_of::<Telegram>(blocks, limit)[i]),
{
    whatever_is_written_is_well_formed(split::groups_of::<Telegram>(blocks, limit)[i]);
}

/// What Telegram shows of HTML without tags: each entity gives way to the character it stands for.
pub open spec fn decoded(html: Seq<char>) -> Seq<char>
    decreases html.len(),
    via decoded_decreases
{
    if html.len() == 0 {
        Seq::empty()
    } else if text::begins(html, "&amp;"@) {
        seq!['&'] + decoded(html.skip(5))
    } else if text::begins(html, "&lt;"@) {
        seq!['<'] + decoded(html.skip(4))
    } else if text::begins(html, "&gt;"@) {
        seq!['>'] + decoded(html.skip(4))
    } else if text::begins(html, "&quot;"@) {
        seq!['"'] + decoded(html.skip(6))
    } else {
        seq![html[0]] + decoded(html.skip(1))
    }
}

#[via_fn]
proof fn decoded_decreases(html: Seq<char>) {
    reveal_strlit("&amp;");
    reveal_strlit("&lt;");
    reveal_strlit("&gt;");
    reveal_strlit("&quot;");
}

proof fn a_character_decodes(c: char, rest: Seq<char>)
    ensures
        decoded(render::attribute_char(c) + rest) == seq![c] + decoded(rest),
        decoded(render::escaped_char(c) + rest) == seq![c] + decoded(rest),
{
    reveal_strlit("&amp;");
    reveal_strlit("&lt;");
    reveal_strlit("&gt;");
    reveal_strlit("&quot;");
    let mark = render::attribute_char(c);
    let whole = mark + rest;
    assert(whole.take(mark.len() as int) =~= mark);
    assert(whole.skip(mark.len() as int) =~= rest);
    assert(whole[0] == mark[0]);
    if c == '&' || c == '<' || c == '>' || c == '"' {
        assert(whole[1] == mark[1]);
        if text::begins(whole, "&amp;"@) {
            assert(whole.take(5)[1] == 'a');
        } else if text::begins(whole, "&lt;"@) {
            assert(whole.take(4)[1] == 'l');
        } else if text::begins(whole, "&gt;"@) {
            assert(whole.take(4)[1] == 'g');
        }
    } else {
        if text::begins(whole, "&amp;"@) {
            assert(whole.take(5)[0] == '&');
        } else if text::begins(whole, "&lt;"@) {
            assert(whole.take(4)[0] == '&');
        } else if text::begins(whole, "&gt;"@) {
            assert(whole.take(4)[0] == '&');
        } else if text::begins(whole, "&quot;"@) {
            assert(whole.take(6)[0] == '&');
        }
    }
    if c == '"' {
        let plain = seq![c] + rest;
        assert(plain.skip(1) =~= rest);
        assert(render::escaped_char(c) =~= seq![c]);
        if text::begins(plain, "&amp;"@) {
            assert(plain.take(5)[0] == '&');
        } else if text::begins(plain, "&lt;"@) {
            assert(plain.take(4)[0] == '&');
        } else if text::begins(plain, "&gt;"@) {
            assert(plain.take(4)[0] == '&');
        } else if text::begins(plain, "&quot;"@) {
            assert(plain.take(6)[0] == '&');
        }
    }
}

proof fn text_decodes(text: Seq<char>, rest: Seq<char>)
    ensures
        decoded(render::escaped(text) + rest) == text + decoded(rest),
        decoded(render::attribute(text) + rest) == text + decoded(rest),
    decreases text.len(),
{
    if text.len() == 0 {
        assert(render::escaped(text) + rest =~= rest);
        assert(render::attribute(text) + rest =~= rest);
        assert(text + decoded(rest) =~= decoded(rest));
    } else {
        let before = text.drop_last();
        let c = text.last();
        assert(render::escaped(text) + rest =~= render::escaped(before) + (render::escaped_char(c)
            + rest));
        assert(render::attribute(text) + rest =~= render::attribute(before) + (
        render::attribute_char(c) + rest));
        text_decodes(before, render::escaped_char(c) + rest);
        text_decodes(before, render::attribute_char(c) + rest);
        a_character_decodes(c, rest);
        assert(before + (seq![c] + decoded(rest)) =~= text + decoded(rest));
    }
}

/// Text is shown as it was written, and an address leads where it was meant to: what was escaped
/// decodes to itself.
pub proof fn escaped_text_is_shown_as_written(text: Seq<char>)
    ensures
        decoded(render::escaped(text)) == text,
        decoded(render::attribute(text)) == text,
{
    text_decodes(text, Seq::empty());
    assert(render::escaped(text) + Seq::<char>::empty() =~= render::escaped(text));
    assert(render::attribute(text) + Seq::<char>::empty() =~= render::attribute(text));
    assert(text + decoded(Seq::empty()) =~= text);
}

} // verus!

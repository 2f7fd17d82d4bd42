//! The flat text transcript format: a session header, then each turn as
//! `[ROLE]: content` closed by a `---` line, and the reader that turns such
//! text back into ordered (role, content) pairs.

use vstd::prelude::*;
use crate::text::{ascii_lower, ascii_upper, find_from, is_trimmed, lines_of, push_str,
    split_lines, to_ascii_lower, to_ascii_upper, trim_str, trimmed};

verus! {

/// One turn as the reader returns it.
pub struct ImportedEntry {
    pub role: String,
    pub content: String,
}

/// Mathematical image of an [`ImportedEntry`].
pub struct ImportedEntryView {
    pub role: Seq<char>,
    pub content: Seq<char>,
}

impl View for ImportedEntry {
    type V = ImportedEntryView;

    open spec fn view(&self) -> ImportedEntryView {
        ImportedEntryView { role: self.role@, content: self.content@ }
    }
}

impl DeepView for ImportedEntry {
    type V = ImportedEntryView;

    open spec fn deep_view(&self) -> ImportedEntryView {
        self.view()
    }
}

/// One exported turn: the uppercased role bracketed, the content, a
/// terminator line.
pub open spec fn export_block(role: Seq<char>, content: Seq<char>) -> Seq<char> {
    "["@ + ascii_upper(role) + "]: "@ + content + "\n---\n"@
}

/// Every turn in order.
pub open spec fn export_blocks(pairs: Seq<ImportedEntryView>) -> Seq<char>
    decreases pairs.len(),
{
    if pairs.len() == 0 {
        Seq::empty()
    } else {
        export_block(pairs[0].role, pairs[0].content) + export_blocks(pairs.drop_first())
    }
}

/// The session header of an export.
pub open spec fn export_header(name: Seq<char>, id: Seq<char>, created: Seq<char>) -> Seq<
    char,
> {
    "Session: "@ + name + "\n"@ + "ID: "@ + id + "\n"@ + "Created At: "@ + created + "\n---\n"@
}

/// A whole export: header, then every turn.
pub open spec fn export_text(
    name: Seq<char>,
    id: Seq<char>,
    created: Seq<char>,
    pairs: Seq<ImportedEntryView>,
) -> Seq<char> {
    export_header(name, id, created) + export_blocks(pairs)
}

proof fn lemma_export_blocks_snoc(pairs: Seq<ImportedEntryView>, p: ImportedEntryView)
    ensures
        export_blocks(pairs.push(p)) =~= export_blocks(pairs) + export_block(p.role, p.content),
    decreases pairs.len(),
{
    if pairs.len() == 0 {
        assert(pairs.push(p)[0] == p);
        assert(pairs.push(p).drop_first() =~= Seq::<ImportedEntryView>::empty());
        assert(export_blocks(Seq::<ImportedEntryView>::empty()) == Seq::<char>::empty());
        assert(export_blocks(pairs.push(p)) =~= export_block(p.role, p.content));
        assert(export_blocks(pairs) + export_block(p.role, p.content) =~= export_block(
            p.role,
            p.content,
        ));
    } else {
        assert(pairs.push(p)[0] == pairs[0]);
        assert(pairs.push(p).drop_first() =~= pairs.drop_first().push(p));
        lemma_export_blocks_snoc(pairs.drop_first(), p);
        let ghost head = export_block(pairs[0].role, pairs[0].content);
        assert(export_blocks(pairs.push(p)) == head + export_blocks(pairs.drop_first().push(p)));
        assert(head + (export_blocks(pairs.drop_first()) + export_block(p.role, p.content))
            =~= (head + export_blocks(pairs.drop_first())) + export_block(p.role, p.content));
    }
}

/// The (role, content) pairs of a run of stored messages.
pub open spec fn stored_pairs(ms: Seq<crate::store::Message>) -> Seq<ImportedEntryView> {
    ms.map_values(
        |m: crate::store::Message| ImportedEntryView { role: m.role@, content: m.content@ },
    )
}

/// Renders a transcript in the flat text format: a session header, then
/// each turn as `[ROLE]: content` closed by a `---` line.
pub fn export_transcript(
    name: &str,
    id: &str,
    created: &str,
    messages: &Vec<crate::store::Message>,
) -> (r: String)
    ensures
        r@ =~= export_text(name@, id@, created@, stored_pairs(messages@)),
{
    let mut out = String::from_str("Session: ");
    push_str(&mut out, name);
    push_str(&mut out, "\n");
    push_str(&mut out, "ID: ");
    push_str(&mut out, id);
    push_str(&mut out, "\n");
    push_str(&mut out, "Created At: ");
    push_str(&mut out, created);
    push_str(&mut out, "\n---\n");
    let ghost header_done = out@;
    let mut i: usize = 0;
    proof {
        assert(stored_pairs(messages@.subrange(0, 0)) =~= Seq::<ImportedEntryView>::empty());
        assert(header_done + export_blocks(stored_pairs(messages@.subrange(0, 0)))
            =~= header_done);
    }
    while i < messages.len()
        invariant
            0 <= i <= messages@.len(),
            out@ =~= header_done + export_blocks(stored_pairs(messages@.subrange(0, i as int))),
            header_done =~= export_header(name@, id@, created@),
        decreases messages@.len() - i,
    {
        let ghost prefix = stored_pairs(messages@.subrange(0, i as int));
        let ghost pv = ImportedEntryView {
            role: messages@[i as int].role@,
            content: messages@[i as int].content@,
        };
        let m = &messages[i];
        push_str(&mut out, "[");
        let upper_role = to_ascii_upper(m.role.as_str());
        push_str(&mut out, upper_role.as_str());
        push_str(&mut out, "]: ");
        push_str(&mut out, m.content.as_str());
        push_str(&mut out, "\n---\n");
        proof {
            assert(messages@.subrange(0, i as int + 1) =~= messages@.subrange(0, i as int).push(
                messages@[i as int],
            ));
            assert(stored_pairs(messages@.subrange(0, i as int + 1)) =~= prefix.push(pv));
            lemma_export_blocks_snoc(prefix, pv);
        }
        i = i + 1;
    }
    proof {
        assert(messages@.subrange(0, messages@.len() as int) =~= messages@);
    }
    out
}

/// True iff a line opens a turn: it starts with `[` and holds `]: `
/// somewhere.
pub open spec fn is_header_line(line: Seq<char>) -> bool {
    line.len() > 0 && line[0] == '[' && exists|i: int| crate::text::occurs_at(line, "]: "@, i)
}

/// The role and raw content a header line carries: the text between the
/// opening bracket and the first `]`, and everything past the two
/// characters after that `]`.
pub open spec fn header_fields(line: Seq<char>) -> ImportedEntryView {
    match find_from(line, ']', 0) {
        Some(e) => ImportedEntryView {
            role: line.subrange(1, e),
            content: line.subrange(e + 2, line.len() as int),
        },
        None => ImportedEntryView { role: Seq::empty(), content: Seq::empty() },
    }
}

/// The reader's fold over the lines after the name line: `---` closes and
/// records a turn when both a role and content are in hand, a header line
/// opens a fresh turn, and any other line continues the current content.
pub open spec fn import_fold(
    lines: Seq<Seq<char>>,
    role: Seq<char>,
    content: Seq<char>,
    out: Seq<ImportedEntryView>,
) -> Seq<ImportedEntryView>
    decreases lines.len(),
{
    if lines.len() == 0 {
        out
    } else {
        let line = lines[0];
        if line == "---"@ {
            if role.len() > 0 && content.len() > 0 {
                import_fold(
                    lines.drop_first(),
                    role,
                    Seq::empty(),
                    out.push(
                        ImportedEntryView { role: ascii_lower(role), content: trimmed(content) },
                    ),
                )
            } else {
                import_fold(lines.drop_first(), role, content, out)
            }
        } else if is_header_line(line) {
            import_fold(
                lines.drop_first(),
                header_fields(line).role,
                header_fields(line).content,
                out,
            )
        } else {
            import_fold(lines.drop_first(), role, content + seq!['\n'] + line, out)
        }
    }
}

/// The name an import reads: the first line's text past `Session: `, or the
/// placeholder when the text is empty or the first line carries no such
/// prefix.
pub open spec fn import_name(text: Seq<char>) -> Seq<char> {
    let lines = lines_of(text);
    if lines.len() > 0 && lines[0].len() >= 9 && lines[0].subrange(0, 9) == "Session: "@ {
        lines[0].subrange(9, lines[0].len() as int)
    } else {
        "Imported Session"@
    }
}

/// The pairs an import reads from the lines after the first.
pub open spec fn import_pairs(text: Seq<char>) -> Seq<ImportedEntryView> {
    if lines_of(text).len() == 0 {
        Seq::empty()
    } else {
        import_fold(lines_of(text).skip(1), Seq::empty(), Seq::empty(), Seq::empty())
    }
}

/// Reads a flat-format transcript back: the session name from the first
/// line, then the ordered (role, content) turns, roles lowercased and
/// contents trimmed.
pub fn import_transcript(text: &str) -> (r: (String, Vec<ImportedEntry>))
    ensures
        r.0@ == import_name(text@),
        r.1.deep_view() =~= import_pairs(text@),
{
    proof {
        reveal_strlit("Session: ");
    }
    let lines = split_lines(text);
    let name: String = if lines.len() > 0 {
        match crate::text::strip_prefix(lines[0].as_str(), "Session: ") {
            Some(rest) => {
                proof {
                    assert(lines.deep_view()[0] == lines@[0]@);
                }
                rest
            },
            None => String::from_str("Imported Session"),
        }
    } else {
        String::from_str("Imported Session")
    };
    let mut out: Vec<ImportedEntry> = Vec::new();
    let mut role: String = String::new();
    let mut content: String = String::new();
    let mut i: usize = 1;
    proof {
        assert(out.deep_view() =~= Seq::<ImportedEntryView>::empty());
    }
    while i < lines.len()
        invariant
            1 <= i <= lines@.len() || (i == 1 && lines@.len() == 0),
            lines.deep_view() =~= lines_of(text@),
            lines.deep_view().len() == lines@.len(),
            lines@.len() > 0 ==> import_pairs(text@) =~= import_fold(
                lines.deep_view().skip(i as int),
                role@,
                content@,
                out.deep_view(),
            ),
            lines@.len() == 0 ==> out.deep_view() =~= Seq::<ImportedEntryView>::empty(),
        decreases lines@.len() - i,
    {
        let ghost rest = lines.deep_view().skip(i as int);
        proof {
            assert(rest[0] == lines.deep_view()[i as int]);
            assert(rest.drop_first() =~= lines.deep_view().skip(i as int + 1));
        }
        let line = &lines[i];
        proof {
            reveal_strlit("---");
            reveal_strlit("[");
            reveal_strlit("]: ");
        }
        if crate::text::str_eq(line.as_str(), "---") {
            proof {
                assert(rest[0] == "---"@);
            }
            let role_len = role.as_str().unicode_len();
            let content_len = content.as_str().unicode_len();
            if role_len > 0 && content_len > 0 {
                let ghost old_role = role@;
                let ghost old_content = content@;
                let lowered = to_ascii_lower(role.as_str());
                let trimmed_content = trim_str(content.as_str());
                let ghost before = out.deep_view();
                out.push(ImportedEntry { role: lowered, content: trimmed_content });
                proof {
                    assert(out.deep_view() =~= before.push(
                        ImportedEntryView {
                            role: ascii_lower(old_role),
                            content: trimmed(old_content),
                        },
                    ));
                    assert(import_fold(rest, old_role, old_content, before) == import_fold(
                        rest.drop_first(),
                        old_role,
                        Seq::empty(),
                        before.push(
                            ImportedEntryView {
                                role: ascii_lower(old_role),
                                content: trimmed(old_content),
                            },
                        ),
                    ));
                }
                content = String::new();
            } else {
                proof {
                    assert(!(role@.len() > 0 && content@.len() > 0));
                    assert(import_fold(rest, role@, content@, out.deep_view()) == import_fold(
                        rest.drop_first(),
                        role@,
                        content@,
                        out.deep_view(),
                    ));
                }
            }
        } else if starts_with_header(line.as_str()) {
            proof {
                assert(rest[0] != "---"@);
                assert(is_header_line(rest[0]));
            }
            let fields = read_header_fields(line.as_str());
            role = fields.0;
            content = fields.1;
        } else {
            proof {
                assert(rest[0] != "---"@);
                assert(!is_header_line(rest[0]));
            }
            let ghost old_content = content@;
            crate::text::push_char(&mut content, '\n');
            push_str(&mut content, line.as_str());
            proof {
                assert(content@ =~= old_content + seq!['\n'] + rest[0]);
            }
        }
        i = i + 1;
    }
    proof {
        if lines@.len() > 0 {
            assert(lines.deep_view().skip(lines@.len() as int).len() == 0);
        }
    }
    (name, out)
}

/// Executable front for [`is_header_line`].
fn starts_with_header(line: &str) -> (b: bool)
    ensures
        b == is_header_line(line@),
{
    proof {
        reveal_strlit("[");
        reveal_strlit("]: ");
    }
    if crate::text::starts_with(line, "[") {
        proof {
            assert(line@.subrange(0, 1)[0] == line@[0]);
            assert("["@[0] == '[');
        }
        crate::text::contains_sub(line, "]: ")
    } else {
        proof {
            if line@.len() > 0 && line@[0] == '[' {
                assert(line@.subrange(0, 1) =~= "["@);
            }
        }
        false
    }
}

/// Reads the role and raw content out of a header line.
fn read_header_fields(line: &str) -> (r: (String, String))
    requires
        is_header_line(line@),
    ensures
        r.0@ == header_fields(line@).role,
        r.1@ == header_fields(line@).content,
{
    proof {
        reveal_strlit("]: ");
    }
    let e = match crate::text::find_char(line, ']') {
        Some(e) => {
            proof {
                crate::text::lemma_find_from_some(line@, ']', e as int, 0);
            }
            e
        },
        None => {
            proof {
                let i = choose|i: int| crate::text::occurs_at(line@, "]: "@, i);
                assert(line@.subrange(i, i + 3)[0] == line@[i]);
                assert("]: "@[0] == ']');
                assert(line@[i] == ']');
                assert(false);
            }
            return (String::new(), String::new());
        },
    };
    let n = line.unicode_len();
    proof {
        let i = choose|i: int| crate::text::occurs_at(line@, "]: "@, i);
        assert(line@.subrange(i, i + 3)[0] == line@[i]);
        assert("]: "@[0] == ']');
        assert(line@[i] == ']');
        assert(e <= i);
        assert(i + 3 <= n);
    }
    let role = line.substring_char(1, e).to_owned();
    let content = line.substring_char(e + 2, n).to_owned();
    (role, content)
}

} // verus!

verus! {

/// Lines joined with a newline after each one.
pub open spec fn join_nl(ls: Seq<Seq<char>>) -> Seq<char>
    decreases ls.len(),
{
    if ls.len() == 0 {
        Seq::empty()
    } else {
        ls[0] + seq!['\n'] + join_nl(ls.drop_first())
    }
}

/// Lines joined with newlines between them.
pub open spec fn sep_join(ls: Seq<Seq<char>>) -> Seq<char> {
    if ls.len() == 0 {
        Seq::empty()
    } else {
        ls[0] + sep_rest(ls.drop_first())
    }
}

/// The tail of a newline-separated join: a newline ahead of each line.
pub open spec fn sep_rest(ls: Seq<Seq<char>>) -> Seq<char>
    decreases ls.len(),
{
    if ls.len() == 0 {
        Seq::empty()
    } else {
        seq!['\n'] + ls[0] + sep_rest(ls.drop_first())
    }
}

/// No newline or carriage return anywhere.
pub open spec fn no_line_break(s: Seq<char>) -> bool {
    forall|k: int| 0 <= k < s.len() ==> s[k] != '\n' && s[k] != '\r'
}

proof fn lemma_join_nl_concat(a: Seq<Seq<char>>, b: Seq<Seq<char>>)
    ensures
        join_nl(a + b) =~= join_nl(a) + join_nl(b),
    decreases a.len(),
{
    if a.len() == 0 {
        assert(a + b =~= b);
        assert(join_nl(a) == Seq::<char>::empty());
        assert(Seq::<char>::empty() + join_nl(b) =~= join_nl(b));
    } else {
        assert((a + b)[0] == a[0]);
        assert((a + b).drop_first() =~= a.drop_first() + b);
        lemma_join_nl_concat(a.drop_first(), b);
        assert(join_nl(a + b) == (a + b)[0] + seq!['\n'] + join_nl((a + b).drop_first()));
        assert(a[0] + seq!['\n'] + (join_nl(a.drop_first()) + join_nl(b)) =~= (a[0] + seq!['\n']
            + join_nl(a.drop_first())) + join_nl(b));
    }
}

proof fn lemma_join_nl_sep(ls: Seq<Seq<char>>)
    requires
        ls.len() > 0,
    ensures
        join_nl(ls) =~= sep_join(ls) + seq!['\n'],
    decreases ls.len(),
{
    if ls.drop_first().len() == 0 {
        assert(join_nl(ls.drop_first()) == Seq::<char>::empty());
        assert(sep_rest(ls.drop_first()) == Seq::<char>::empty());
    } else {
        lemma_join_nl_sep(ls.drop_first());
        assert(sep_join(ls.drop_first()) == ls.drop_first()[0] + sep_rest(
            ls.drop_first().drop_first(),
        ));
        assert(sep_rest(ls.drop_first()) == seq!['\n'] + ls.drop_first()[0] + sep_rest(
            ls.drop_first().drop_first(),
        ));
    }
}

/// Splitting a no-newline chunk followed by a newline peels one line off.
proof fn lemma_lines_acc_peel(line: Seq<char>, rest: Seq<char>, cur: Seq<char>)
    requires
        forall|k: int| 0 <= k < line.len() ==> line[k] != '\n',
        crate::text::strip_cr(cur + line) == cur + line,
    ensures
        crate::text::lines_acc(line + seq!['\n'] + rest, cur) =~= seq![cur + line]
            + crate::text::lines_acc(rest, Seq::empty()),
    decreases line.len(),
{
    let s = line + seq!['\n'] + rest;
    if line.len() == 0 {
        assert(s[0] == '\n');
        assert(s.drop_first() =~= rest);
        assert(cur + line =~= cur);
        assert(crate::text::lines_acc(s, cur) == seq![crate::text::strip_cr(cur)]
            + crate::text::lines_acc(rest, Seq::empty()));
        assert(crate::text::strip_cr(cur) == cur + line);
    } else {
        assert(s[0] == line[0]);
        assert(line[0] != '\n');
        assert(s.drop_first() =~= line.drop_first() + seq!['\n'] + rest);
        assert(cur.push(line[0]) + line.drop_first() =~= cur + line);
        lemma_lines_acc_peel(line.drop_first(), rest, cur.push(line[0]));
    }
}

/// The lines of a join are the lines joined, when no line holds a newline
/// or ends with a carriage return.
proof fn lemma_lines_of_join(ls: Seq<Seq<char>>)
    requires
        forall|i: int, k: int|
            0 <= i < ls.len() && 0 <= k < ls[i].len() ==> #[trigger] ls[i][k] != '\n',
        forall|i: int|
            0 <= i < ls.len() ==> #[trigger] crate::text::strip_cr(ls[i]) == ls[i],
    ensures
        lines_of(join_nl(ls)) =~= ls,
    decreases ls.len(),
{
    if ls.len() == 0 {
        assert(join_nl(ls) == Seq::<char>::empty());
    } else {
        assert(Seq::<char>::empty() + ls[0] =~= ls[0]);
        assert(crate::text::strip_cr(Seq::<char>::empty() + ls[0]) == Seq::<char>::empty()
            + ls[0]);
        lemma_lines_acc_peel(ls[0], join_nl(ls.drop_first()), Seq::empty());
        lemma_lines_of_join(ls.drop_first());
        assert(lines_of(join_nl(ls)) =~= seq![ls[0]] + lines_of(join_nl(ls.drop_first())));
        assert(seq![ls[0]] + ls.drop_first() =~= ls);
    }
}

/// A trimmed non-empty content splits into lines that rebuild it: the lines
/// are newline-free, carriage-return-free, there is at least one, and the
/// newline-separated join gives the content back.
proof fn lemma_content_lines(content: Seq<char>)
    requires
        content.len() > 0,
        forall|k: int| 0 <= k < content.len() ==> content[k] != '\r',
        content[content.len() - 1] != '\n',
    ensures
        lines_of(content).len() >= 1,
        join_nl(lines_of(content)) =~= content + seq!['\n'],
        sep_join(lines_of(content)) =~= content,
        forall|i: int, k: int|
            0 <= i < lines_of(content).len() && 0 <= k < lines_of(content)[i].len()
                ==> #[trigger] lines_of(content)[i][k] != '\n' && lines_of(content)[i][k]
                != '\r',
        lines_of(content)[0].len() == 0 ==> content[0] == '\n',
    decreases content.len(),
{
    match find_from(content, '\n', 0) {
        None => {
            crate::text::lemma_find_from_props(content, '\n', 0);
            lemma_lines_acc_no_newline(content, Seq::empty());
            assert(Seq::<char>::empty() + content =~= content);
            assert(lines_of(content) =~= seq![content]);
            assert(seq![content][0] == content);
            assert(seq![content].drop_first() =~= Seq::<Seq<char>>::empty());
            assert(join_nl(Seq::<Seq<char>>::empty()) == Seq::<char>::empty());
            assert(join_nl(seq![content]) == content + seq!['\n'] + join_nl(
                Seq::<Seq<char>>::empty(),
            ));
            assert(content + seq!['\n'] + Seq::<char>::empty() =~= content + seq!['\n']);
            assert(join_nl(lines_of(content)) =~= content + seq!['\n']);
            assert(sep_join(lines_of(content)) =~= content);
        },
        Some(p) => {
            crate::text::lemma_find_from_props(content, '\n', 0);
            let first = content.subrange(0, p);
            let rest = content.subrange(p + 1, content.len() as int);
            assert(content =~= first + seq!['\n'] + rest);
            assert(forall|k: int| 0 <= k < first.len() ==> first[k] != '\n');
            assert(rest.len() > 0) by {
                if p == content.len() - 1 {
                    assert(content[p] == '\n');
                }
            }
            assert(crate::text::strip_cr(Seq::<char>::empty() + first) == Seq::<char>::empty()
                + first) by {
                if first.len() > 0 {
                    assert(first[first.len() - 1] == content[p - 1]);
                }
            }
            lemma_lines_acc_peel(first, rest, Seq::empty());
            assert(Seq::<char>::empty() + first =~= first);
            assert(lines_of(content) =~= seq![first] + lines_of(rest));
            assert(forall|k: int| 0 <= k < rest.len() ==> rest[k] == content[p + 1 + k]);
            assert(rest[rest.len() - 1] != '\n');
            lemma_content_lines(rest);
            assert(join_nl(lines_of(content)) =~= join_nl(seq![first] + lines_of(rest)));
            lemma_join_nl_concat(seq![first], lines_of(rest));
            assert(seq![first][0] == first);
            assert(seq![first].drop_first() =~= Seq::<Seq<char>>::empty());
            assert(join_nl(Seq::<Seq<char>>::empty()) == Seq::<char>::empty());
            assert(join_nl(seq![first]) == first + seq!['\n'] + join_nl(
                Seq::<Seq<char>>::empty(),
            ));
            assert(join_nl(seq![first]) =~= first + seq!['\n']);
            assert((first + seq!['\n']) + (rest + seq!['\n']) =~= content + seq!['\n']);
            lemma_join_nl_sep(lines_of(content));
            assert(sep_join(lines_of(content)) + seq!['\n'] =~= content + seq!['\n']);
            assert(sep_join(lines_of(content)) =~= (sep_join(lines_of(content)) + seq![
                '\n',
            ]).drop_last());
            assert((content + seq!['\n']).drop_last() =~= content);
            assert(lines_of(content)[0] == first);
            if first.len() == 0 {
                assert(content[0] == '\n');
            }
        },
    }
}

/// Line splitting of a newline-free text gives the one accumulated line.
proof fn lemma_lines_acc_no_newline(s: Seq<char>, cur: Seq<char>)
    requires
        forall|k: int| 0 <= k < s.len() ==> s[k] != '\n',
        (cur + s).len() > 0,
        crate::text::strip_cr(cur + s) == cur + s,
    ensures
        crate::text::lines_acc(s, cur) =~= seq![cur + s],
    decreases s.len(),
{
    if s.len() == 0 {
        assert(cur + s =~= cur);
        assert(cur.len() > 0);
        assert(crate::text::strip_cr(cur) == cur + s);
    } else {
        assert(s[0] != '\n');
        assert(cur.push(s[0]) + s.drop_first() =~= cur + s);
        lemma_lines_acc_no_newline(s.drop_first(), cur.push(s[0]));
    }
}

} // verus!

verus! {

/// An ASCII letter.
pub open spec fn is_ascii_alpha(c: char) -> bool {
    ('a' <= c <= 'z') || ('A' <= c <= 'Z')
}

/// A role the format carries faithfully: non-empty ASCII letters.
pub open spec fn exportable_role(role: Seq<char>) -> bool {
    role.len() > 0 && forall|k: int| 0 <= k < role.len() ==> is_ascii_alpha(#[trigger] role[k])
}

/// A content the format carries faithfully: non-empty, bordered by
/// non-whitespace, free of carriage returns, and none of its continuation
/// lines reads as a block terminator or a turn header.
pub open spec fn exportable_content(content: Seq<char>) -> bool {
    &&& content.len() > 0
    &&& is_trimmed(content)
    &&& (forall|k: int| 0 <= k < content.len() ==> content[k] != '\r')
    &&& (forall|i: int|
        1 <= i < lines_of(content).len() ==> #[trigger] lines_of(content)[i] != "---"@
            && !is_header_line(lines_of(content)[i]))
}

/// What re-importing gives back for one exported turn: the role lowercased,
/// the content untouched.
pub open spec fn mapped_pair(p: ImportedEntryView) -> ImportedEntryView {
    ImportedEntryView { role: ascii_lower(p.role), content: p.content }
}

/// The physical lines of one exported turn.
pub open spec fn block_lines(p: ImportedEntryView) -> Seq<Seq<char>> {
    let cls = lines_of(p.content);
    seq![("["@ + ascii_upper(p.role) + "]: "@) + cls[0]] + cls.skip(1) + seq!["---"@]
}

/// The physical lines of every exported turn, in order.
pub open spec fn blocks_lines(pairs: Seq<ImportedEntryView>) -> Seq<Seq<char>>
    decreases pairs.len(),
{
    if pairs.len() == 0 {
        Seq::empty()
    } else {
        block_lines(pairs[0]) + blocks_lines(pairs.drop_first())
    }
}

proof fn lemma_lower_upper_char(c: char)
    ensures
        crate::text::lower_char(crate::text::upper_char(c)) == crate::text::lower_char(c),
{
    if 'a' <= c <= 'z' {
        assert(crate::text::upper_char(c) == (((c as u8) - 0x20) as char));
        assert('A' <= (((c as u8) - 0x20) as char) <= 'Z');
        assert((((((c as u8) - 0x20) as char) as u8) + 0x20) as char == c);
    }
}

proof fn lemma_lower_of_upper(role: Seq<char>)
    ensures
        ascii_lower(ascii_upper(role)) =~= ascii_lower(role),
{
    assert forall|k: int| 0 <= k < role.len() implies ascii_lower(ascii_upper(role))[k]
        == ascii_lower(role)[k] by {
        lemma_lower_upper_char(role[k]);
    }
}

proof fn lemma_trim_leading_space(c: Seq<char>)
    requires
        is_trimmed(c),
        c.len() > 0,
    ensures
        trimmed(seq![' '] + c) == c,
{
    let s = seq![' '] + c;
    assert(s[0] == ' ');
    assert(s.drop_first() =~= c);
    assert(crate::text::trim_start_rec(s) == crate::text::trim_start_rec(c));
    assert(crate::text::trim_start_rec(c) == c);
    assert(crate::text::trim_end_rec(c) == c);
}

proof fn lemma_export_block_join(p: ImportedEntryView)
    requires
        exportable_role(p.role),
        exportable_content(p.content),
    ensures
        export_block(p.role, p.content) =~= join_nl(block_lines(p)),
{
    proof_literals();
    let cls = lines_of(p.content);
    assert(p.content[p.content.len() - 1] != '\n');
    lemma_content_lines(p.content);
    let h = ("["@ + ascii_upper(p.role) + "]: "@) + cls[0];
    assert(block_lines(p) =~= seq![h] + (cls.skip(1) + seq!["---"@]));
    lemma_join_nl_concat(seq![h], cls.skip(1) + seq!["---"@]);
    lemma_join_nl_concat(cls.skip(1), seq!["---"@]);
    assert(join_nl(Seq::<Seq<char>>::empty()) == Seq::<char>::empty());
    assert(seq![h][0] == h);
    assert(seq![h].drop_first() =~= Seq::<Seq<char>>::empty());
    assert(join_nl(seq![h]) == h + seq!['\n'] + join_nl(Seq::<Seq<char>>::empty()));
    assert(join_nl(seq![h]) =~= h + seq!['\n']);
    assert(seq!["---"@][0] == "---"@);
    assert(seq!["---"@].drop_first() =~= Seq::<Seq<char>>::empty());
    assert(join_nl(seq!["---"@]) == "---"@ + seq!['\n'] + join_nl(Seq::<Seq<char>>::empty()));
    assert(join_nl(seq!["---"@]) =~= "---"@ + seq!['\n']);
    assert(cls =~= seq![cls[0]] + cls.skip(1));
    lemma_join_nl_concat(seq![cls[0]], cls.skip(1));
    assert(seq![cls[0]][0] == cls[0]);
    assert(seq![cls[0]].drop_first() =~= Seq::<Seq<char>>::empty());
    assert(join_nl(seq![cls[0]]) == cls[0] + seq!['\n'] + join_nl(Seq::<Seq<char>>::empty()));
    assert(join_nl(seq![cls[0]]) =~= cls[0] + seq!['\n']);
    assert(join_nl(cls) =~= cls[0] + seq!['\n'] + join_nl(cls.skip(1)));
    assert(join_nl(cls) =~= p.content + seq!['\n']);
    assert("\n---\n"@ =~= seq!['\n'] + "---"@ + seq!['\n']);
    let prefix = "["@ + ascii_upper(p.role) + "]: "@;
    assert(join_nl(block_lines(p)) =~= join_nl(seq![h]) + (join_nl(cls.skip(1)) + join_nl(
        seq!["---"@],
    )));
    assert(join_nl(block_lines(p)) =~= ((prefix + cls[0]) + seq!['\n']) + (join_nl(
        cls.skip(1),
    ) + ("---"@ + seq!['\n'])));
    assert(((prefix + cls[0]) + seq!['\n']) + (join_nl(cls.skip(1)) + ("---"@ + seq!['\n']))
        =~= prefix + (cls[0] + seq!['\n'] + join_nl(cls.skip(1))) + "---"@ + seq!['\n']);
    assert(prefix + (cls[0] + seq!['\n'] + join_nl(cls.skip(1))) + "---"@ + seq!['\n']
        =~= prefix + (p.content + seq!['\n']) + "---"@ + seq!['\n']);
    assert(export_block(p.role, p.content) =~= prefix + p.content + (seq!['\n'] + "---"@
        + seq!['\n']));
    assert(prefix + p.content + (seq!['\n'] + "---"@ + seq!['\n']) =~= prefix + (p.content
        + seq!['\n']) + "---"@ + seq!['\n']);
    assert(export_block(p.role, p.content) =~= join_nl(block_lines(p)));
}

proof fn proof_literals()
    ensures
        "["@ =~= seq!['['],
        "]: "@ =~= seq![']', ':', ' '],
        "---"@ =~= seq!['-', '-', '-'],
        "\n"@ =~= seq!['\n'],
        "\n---\n"@ =~= seq!['\n', '-', '-', '-', '\n'],
        "Session: "@.len() == 9,
        "Session: "@[0] == 'S',
        "ID: "@.len() == 4,
        "ID: "@[0] == 'I',
        "Created At: "@.len() == 12,
        "Created At: "@[0] == 'C',
        forall|k: int| 0 <= k < "Session: "@.len() ==> "Session: "@[k] != '\n'
            && "Session: "@[k] != '\r',
        forall|k: int| 0 <= k < "ID: "@.len() ==> "ID: "@[k] != '\n' && "ID: "@[k] != '\r',
        forall|k: int| 0 <= k < "Created At: "@.len() ==> "Created At: "@[k] != '\n'
            && "Created At: "@[k] != '\r',
{
    reveal_strlit("[");
    reveal_strlit("]: ");
    reveal_strlit("---");
    reveal_strlit("\n");
    reveal_strlit("\n---\n");
    reveal_strlit("Session: ");
    reveal_strlit("ID: ");
    reveal_strlit("Created At: ");
}

proof fn lemma_blocks_join(pairs: Seq<ImportedEntryView>)
    requires
        forall|k: int|
            0 <= k < pairs.len() ==> exportable_role(#[trigger] pairs[k].role)
                && exportable_content(pairs[k].content),
    ensures
        export_blocks(pairs) =~= join_nl(blocks_lines(pairs)),
    decreases pairs.len(),
{
    if pairs.len() > 0 {
        lemma_export_block_join(pairs[0]);
        lemma_blocks_join(pairs.drop_first());
        lemma_join_nl_concat(block_lines(pairs[0]), blocks_lines(pairs.drop_first()));
    }
}

proof fn lemma_block_lines_wf(p: ImportedEntryView)
    requires
        exportable_role(p.role),
        exportable_content(p.content),
    ensures
        forall|i: int, k: int|
            0 <= i < block_lines(p).len() && 0 <= k < block_lines(p)[i].len()
                ==> #[trigger] block_lines(p)[i][k] != '\n' && block_lines(p)[i][k] != '\r',
{
    proof_literals();
    assert(p.content[p.content.len() - 1] != '\n');
    lemma_content_lines(p.content);
    let cls = lines_of(p.content);
    let h = ("["@ + ascii_upper(p.role) + "]: "@) + cls[0];
    assert forall|k: int| 0 <= k < h.len() implies h[k] != '\n' && h[k] != '\r' by {
        if 1 <= k < 1 + p.role.len() {
            assert(h[k] == crate::text::upper_char(p.role[k - 1]));
            assert(is_ascii_alpha(p.role[k - 1]));
        }
    }
    assert forall|i: int, k: int|
        0 <= i < block_lines(p).len() && 0 <= k < block_lines(p)[i].len() implies #[trigger]
        block_lines(p)[i][k] != '\n' && block_lines(p)[i][k] != '\r' by {
        if i == 0 {
            assert(block_lines(p)[0] == h);
        } else if i < 1 + cls.skip(1).len() {
            assert(block_lines(p)[i] == cls[i]);
        } else {
            assert(block_lines(p)[i] == "---"@);
        }
    }
}

proof fn lemma_blocks_lines_wf(pairs: Seq<ImportedEntryView>)
    requires
        forall|k: int|
            0 <= k < pairs.len() ==> exportable_role(#[trigger] pairs[k].role)
                && exportable_content(pairs[k].content),
    ensures
        forall|i: int, k: int|
            0 <= i < blocks_lines(pairs).len() && 0 <= k < blocks_lines(pairs)[i].len()
                ==> #[trigger] blocks_lines(pairs)[i][k] != '\n' && blocks_lines(pairs)[i][k]
                != '\r',
    decreases pairs.len(),
{
    if pairs.len() > 0 {
        lemma_block_lines_wf(pairs[0]);
        lemma_blocks_lines_wf(pairs.drop_first());
        let all = blocks_lines(pairs);
        let first = block_lines(pairs[0]);
        let rest = blocks_lines(pairs.drop_first());
        assert forall|i: int, k: int|
            0 <= i < all.len() && 0 <= k < all[i].len() implies #[trigger] all[i][k] != '\n'
            && all[i][k] != '\r' by {
            if i < first.len() {
                assert(all[i] == first[i]);
            } else {
                assert(all[i] == rest[i - first.len()]);
            }
        }
    }
}

} // verus!

verus! {

proof fn lemma_import_fold_append(
    cls: Seq<Seq<char>>,
    more: Seq<Seq<char>>,
    role: Seq<char>,
    content: Seq<char>,
    out: Seq<ImportedEntryView>,
)
    requires
        forall|i: int|
            0 <= i < cls.len() ==> #[trigger] cls[i] != "---"@ && !is_header_line(cls[i]),
    ensures
        import_fold(cls + more, role, content, out) == import_fold(
            more,
            role,
            content + sep_rest(cls),
            out,
        ),
    decreases cls.len(),
{
    if cls.len() == 0 {
        assert(cls + more =~= more);
        assert(sep_rest(cls) == Seq::<char>::empty());
        assert(content + Seq::<char>::empty() =~= content);
    } else {
        assert((cls + more)[0] == cls[0]);
        assert((cls + more).drop_first() =~= cls.drop_first() + more);
        assert(cls[0] != "---"@ && !is_header_line(cls[0]));
        assert(import_fold(cls + more, role, content, out) == import_fold(
            cls.drop_first() + more,
            role,
            content + seq!['\n'] + cls[0],
            out,
        ));
        lemma_import_fold_append(cls.drop_first(), more, role, content + seq!['\n'] + cls[0], out);
        assert((content + seq!['\n'] + cls[0]) + sep_rest(cls.drop_first()) =~= content + (seq![
            '\n',
        ] + cls[0] + sep_rest(cls.drop_first())));
        assert(sep_rest(cls) == seq!['\n'] + cls[0] + sep_rest(cls.drop_first()));
        assert(content + sep_rest(cls) =~= (content + seq!['\n'] + cls[0]) + sep_rest(
            cls.drop_first(),
        ));
    }
}

proof fn lemma_import_fold_block(
    p: ImportedEntryView,
    more: Seq<Seq<char>>,
    role0: Seq<char>,
    content0: Seq<char>,
    out: Seq<ImportedEntryView>,
)
    requires
        exportable_role(p.role),
        exportable_content(p.content),
    ensures
        import_fold(block_lines(p) + more, role0, content0, out) == import_fold(
            more,
            ascii_upper(p.role),
            Seq::empty(),
            out.push(mapped_pair(p)),
        ),
{
    proof_literals();
    assert(p.content[p.content.len() - 1] != '\n');
    lemma_content_lines(p.content);
    let cls = lines_of(p.content);
    let upper = ascii_upper(p.role);
    let n = p.role.len() as int;
    assert(upper.len() == n);
    let h = ("["@ + upper + "]: "@) + cls[0];
    let lines = block_lines(p) + more;
    assert(lines[0] == h);
    assert(lines.drop_first() =~= (cls.skip(1) + seq!["---"@]) + more);
    // The header line is recognised: it opens with `[` and carries `]: `.
    assert(h[0] == '[');
    assert(h != "---"@) by {
        assert("---"@[0] == '-');
    }
    assert(crate::text::occurs_at(h, "]: "@, 1 + n)) by {
        assert(h.subrange(1 + n, 1 + n + 3) =~= "]: "@);
    }
    assert(is_header_line(h));
    // Its first `]` closes the role exactly.
    assert(h[1 + n] == ']');
    assert(forall|k: int| 0 <= k < 1 + n ==> #[trigger] h[k] != ']') by {
        assert(h[0] == '[');
        assert(forall|k: int| 1 <= k < 1 + n ==> h[k] == upper[k - 1]);
        assert(forall|k: int|
            0 <= k < n ==> is_ascii_alpha(#[trigger] p.role[k]) && upper[k]
                == crate::text::upper_char(p.role[k]));
    }
    crate::text::lemma_find_from_props(h, ']', 0);
    assert(find_from(h, ']', 0) == Some(1 + n)) by {
        match find_from(h, ']', 0) {
            Some(q) => {
                if q < 1 + n {
                    assert(h[q] != ']');
                } else if q > 1 + n {
                    assert(h[1 + n] == ']');
                }
            },
            None => {
                assert(h[1 + n] == ']');
            },
        }
    }
    assert(header_fields(h).role =~= upper) by {
        assert(h.subrange(1, 1 + n) =~= upper);
    }
    assert(header_fields(h).content =~= seq![' '] + cls[0]) by {
        assert(h.subrange(1 + n + 3, h.len() as int) =~= cls[0]);
        assert(h[1 + n + 2] == ' ');
        assert(h.subrange(1 + n + 2, h.len() as int) =~= seq![' '] + cls[0]);
    }
    // Step through the header, the continuation lines, and the terminator.
    assert(import_fold(lines, role0, content0, out) == import_fold(
        lines.drop_first(),
        upper,
        seq![' '] + cls[0],
        out,
    ));
    assert(lines.drop_first() =~= cls.skip(1) + (seq!["---"@] + more));
    assert(forall|i: int|
        0 <= i < cls.skip(1).len() ==> #[trigger] cls.skip(1)[i] != "---"@ && !is_header_line(
            cls.skip(1)[i],
        )) by {
        assert(forall|i: int| 0 <= i < cls.skip(1).len() ==> cls.skip(1)[i] == cls[i + 1]);
    }
    lemma_import_fold_append(cls.skip(1), seq!["---"@] + more, upper, seq![' '] + cls[0], out);
    let acc = (seq![' '] + cls[0]) + sep_rest(cls.skip(1));
    assert(acc =~= seq![' '] + p.content) by {
        assert(sep_join(cls) == cls[0] + sep_rest(cls.skip(1))) by {
            assert(cls.drop_first() =~= cls.skip(1));
        }
        assert(cls[0] + sep_rest(cls.skip(1)) =~= p.content);
    }
    let terminated = seq!["---"@] + more;
    assert(terminated[0] == "---"@);
    assert(terminated.drop_first() =~= more);
    assert(upper.len() > 0);
    assert(acc.len() > 0);
    lemma_lower_of_upper(p.role);
    lemma_trim_leading_space(p.content);
    assert(trimmed(acc) == p.content) by {
        assert(acc =~= seq![' '] + p.content);
    }
    assert(import_fold(terminated, upper, acc, out) == import_fold(
        more,
        upper,
        Seq::empty(),
        out.push(ImportedEntryView { role: ascii_lower(upper), content: trimmed(acc) }),
    ));
    assert(ImportedEntryView { role: ascii_lower(upper), content: trimmed(acc) } == mapped_pair(
        p,
    )) by {
        assert(ascii_lower(upper) == ascii_lower(p.role));
    }
}

proof fn lemma_import_fold_blocks(
    pairs: Seq<ImportedEntryView>,
    role0: Seq<char>,
    content0: Seq<char>,
    out: Seq<ImportedEntryView>,
)
    requires
        forall|k: int|
            0 <= k < pairs.len() ==> exportable_role(#[trigger] pairs[k].role)
                && exportable_content(pairs[k].content),
    ensures
        import_fold(blocks_lines(pairs), role0, content0, out) =~= out + pairs.map_values(
            |p: ImportedEntryView| mapped_pair(p),
        ),
    decreases pairs.len(),
{
    if pairs.len() == 0 {
        assert(blocks_lines(pairs) == Seq::<Seq<char>>::empty());
        assert(out + pairs.map_values(|p: ImportedEntryView| mapped_pair(p)) =~= out);
    } else {
        lemma_import_fold_block(
            pairs[0],
            blocks_lines(pairs.drop_first()),
            role0,
            content0,
            out,
        );
        lemma_import_fold_blocks(
            pairs.drop_first(),
            ascii_upper(pairs[0].role),
            Seq::empty(),
            out.push(mapped_pair(pairs[0])),
        );
        assert(out.push(mapped_pair(pairs[0])) + pairs.drop_first().map_values(
            |p: ImportedEntryView| mapped_pair(p),
        ) =~= out + pairs.map_values(|p: ImportedEntryView| mapped_pair(p))) by {
            assert(forall|k: int|
                0 <= k < pairs.drop_first().len() ==> #[trigger] pairs.drop_first()[k]
                    == pairs[k + 1]);
        }
    }
}

/// Law: the flat text format round-trips. Exporting a transcript and
/// re-importing the text yields the same session name and the same ordered
/// (role, content) pairs, with each role compared case-insensitively (the
/// format uppercases roles on the way out and the reader lowercases them on
/// the way back). This holds for every transcript whose names and stamps
/// carry no line breaks, whose roles are non-empty ASCII letters, and whose
/// contents are non-empty, trimmed, free of carriage returns, and have no
/// continuation line that reads as a block terminator or a turn header.
pub proof fn lemma_export_import_round_trip(
    name: Seq<char>,
    id: Seq<char>,
    created: Seq<char>,
    pairs: Seq<ImportedEntryView>,
)
    requires
        no_line_break(name),
        no_line_break(id),
        no_line_break(created),
        forall|k: int|
            0 <= k < pairs.len() ==> exportable_role(#[trigger] pairs[k].role)
                && exportable_content(pairs[k].content),
    ensures
        import_name(export_text(name, id, created, pairs)) == name,
        import_pairs(export_text(name, id, created, pairs)).len() == pairs.len(),
        forall|k: int|
            0 <= k < pairs.len() ==> #[trigger] import_pairs(
                export_text(name, id, created, pairs),
            )[k].role == ascii_lower(pairs[k].role) && import_pairs(
                export_text(name, id, created, pairs),
            )[k].content == pairs[k].content,
{
    proof_literals();
    let text = export_text(name, id, created, pairs);
    let l1 = "Session: "@ + name;
    let l2 = "ID: "@ + id;
    let l3 = "Created At: "@ + created;
    let head_lines = seq![l1, l2, l3, "---"@];
    let all_lines = head_lines + blocks_lines(pairs);
    // The export text is the newline join of its physical lines.
    assert(join_nl(head_lines) =~= export_header(name, id, created)) by {
        assert(head_lines[0] == l1);
        assert(head_lines.drop_first() =~= seq![l2, l3, "---"@]);
        assert(seq![l2, l3, "---"@][0] == l2);
        assert(seq![l2, l3, "---"@].drop_first() =~= seq![l3, "---"@]);
        assert(seq![l3, "---"@][0] == l3);
        assert(seq![l3, "---"@].drop_first() =~= seq!["---"@]);
        assert(seq!["---"@][0] == "---"@);
        assert(seq!["---"@].drop_first() =~= Seq::<Seq<char>>::empty());
        assert(join_nl(Seq::<Seq<char>>::empty()) == Seq::<char>::empty());
        assert(join_nl(seq!["---"@]) == "---"@ + seq!['\n'] + join_nl(
            Seq::<Seq<char>>::empty(),
        ));
        assert(join_nl(seq![l3, "---"@]) == l3 + seq!['\n'] + join_nl(seq!["---"@]));
        assert(join_nl(seq![l2, l3, "---"@]) == l2 + seq!['\n'] + join_nl(seq![l3, "---"@]));
        assert(join_nl(head_lines) == l1 + seq!['\n'] + join_nl(seq![l2, l3, "---"@]));
        assert(join_nl(head_lines) =~= l1 + seq!['\n'] + (l2 + seq!['\n'] + (l3 + seq!['\n'] + (
        "---"@ + seq!['\n'] + Seq::<char>::empty()))));
        assert("\n"@ =~= seq!['\n']);
        assert("\n---\n"@ =~= seq!['\n'] + "---"@ + seq!['\n']);
    }
    lemma_blocks_join(pairs);
    lemma_join_nl_concat(head_lines, blocks_lines(pairs));
    assert(text =~= join_nl(all_lines));
    // Splitting it back gives those lines.
    lemma_blocks_lines_wf(pairs);
    assert(forall|i: int, k: int|
        0 <= i < all_lines.len() && 0 <= k < all_lines[i].len() ==> #[trigger] all_lines[i][k]
            != '\n' && all_lines[i][k] != '\r') by {
        assert(forall|i: int|
            0 <= i < blocks_lines(pairs).len() ==> all_lines[4 + i] == #[trigger] blocks_lines(
                pairs,
            )[i]);
        assert(all_lines[0] == l1 && all_lines[1] == l2 && all_lines[2] == l3 && all_lines[3]
            == "---"@);
    }
    assert(forall|i: int|
        0 <= i < all_lines.len() ==> #[trigger] crate::text::strip_cr(all_lines[i])
            == all_lines[i]);
    lemma_lines_of_join(all_lines);
    assert(lines_of(text) =~= all_lines);
    // The name line reads back.
    assert(lines_of(text)[0] == l1);
    assert(l1.subrange(0, 9) =~= "Session: "@);
    assert(l1.subrange(9, l1.len() as int) =~= name);
    assert(import_name(text) == name);
    // The fold walks the two stamp lines, the header terminator, then the
    // blocks.
    let after_name = all_lines.skip(1);
    assert(after_name =~= seq![l2, l3, "---"@] + blocks_lines(pairs));
    assert(l2 != "---"@ && !is_header_line(l2)) by {
        assert(l2[0] == 'I');
        assert("---"@[0] == '-');
    }
    assert(l3 != "---"@ && !is_header_line(l3)) by {
        assert(l3[0] == 'C');
        assert("---"@[0] == '-');
    }
    assert(after_name[0] == l2);
    assert(after_name.drop_first() =~= seq![l3, "---"@] + blocks_lines(pairs));
    let s1 = seq![l3, "---"@] + blocks_lines(pairs);
    assert(s1[0] == l3);
    assert(s1.drop_first() =~= seq!["---"@] + blocks_lines(pairs));
    let s2 = seq!["---"@] + blocks_lines(pairs);
    assert(s2[0] == "---"@);
    assert(s2.drop_first() =~= blocks_lines(pairs));
    let c1 = Seq::<char>::empty() + seq!['\n'] + l2;
    let c2 = c1 + seq!['\n'] + l3;
    assert(import_pairs(text) =~= import_fold(after_name, Seq::empty(), Seq::empty(), Seq::empty()))
        by {
        assert(lines_of(text).len() > 0);
    }
    assert(import_fold(after_name, Seq::empty(), Seq::empty(), Seq::empty()) == import_fold(
        after_name.drop_first(),
        Seq::empty(),
        c1,
        Seq::empty(),
    ));
    assert(import_fold(s1, Seq::empty(), c1, Seq::empty()) == import_fold(
        s1.drop_first(),
        Seq::empty(),
        c2,
        Seq::empty(),
    ));
    assert(import_fold(s2, Seq::empty(), c2, Seq::empty()) == import_fold(
        s2.drop_first(),
        Seq::empty(),
        c2,
        Seq::empty(),
    ));
    lemma_import_fold_blocks(pairs, Seq::empty(), c2, Seq::empty());
    let mapped = pairs.map_values(|p: ImportedEntryView| mapped_pair(p));
    assert(Seq::<ImportedEntryView>::empty() + mapped =~= mapped);
    assert(import_pairs(text) =~= mapped);
    assert(forall|k: int|
        0 <= k < pairs.len() ==> #[trigger] import_pairs(text)[k].role == ascii_lower(
            pairs[k].role,
        ) && import_pairs(text)[k].content == pairs[k].content) by {
        assert(forall|k: int| 0 <= k < pairs.len() ==> mapped[k] == mapped_pair(#[trigger] pairs[k]));
    }
}

} // verus!

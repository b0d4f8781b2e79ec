//! The text of the help screen.

use crate::text::texts;
use crate::utils::{as_bold, bold_spec, repeated};
use vstd::prelude::*;
use vstd::string::StringExecFns;

verus! {

/// Whether `a` comes before `b`, or is `b`, in the order of strings: the
/// order of the first character in which they differ, and a string before
/// every longer one that begins with it.
pub open spec fn lex_le(a: Seq<char>, b: Seq<char>) -> bool
    decreases a.len(),
{
    if a.len() == 0 {
        true
    } else if b.len() == 0 {
        false
    } else if a[0] != b[0] {
        (a[0] as u32) < (b[0] as u32)
    } else {
        lex_le(a.drop_first(), b.drop_first())
    }
}

/// Whether `lines` stand in the order of strings.
pub open spec fn is_sorted(lines: Seq<Seq<char>>) -> bool {
    forall|i: int, j: int| 0 <= i < j < lines.len() ==> lex_le(lines[i], lines[j])
}

/// Trusted: `slice::sort` on strings puts them in the order of `String`,
/// which compares byte by byte and so, in UTF-8, character by character; it
/// keeps every string as often as it was there.
#[verifier::external_body]
fn sort_lines(lines: &mut Vec<String>)
    ensures
        is_sorted(texts(final(lines)@)),
        texts(final(lines)@).to_multiset() == texts(old(lines)@).to_multiset(),
{
    lines.sort();
}

/// The number of bytes of the longest of `keys`.
pub open spec fn max_key_size(keys: Seq<Seq<char>>) -> nat
    decreases keys.len(),
{
    if keys.len() == 0 {
        0
    } else {
        let rest = max_key_size(keys.drop_last());
        let last = vstd::utf8::encode_utf8(keys.last()).len();
        if last >= rest {
            last
        } else {
            rest
        }
    }
}

/// The line of the help screen for the command `key`: the command, spaces up
/// to `width` bytes and one more, an arrow, and what the command does.
pub open spec fn entry_line(key: Seq<char>, doc: Seq<char>, width: nat) -> Seq<char> {
    let size = vstd::utf8::encode_utf8(key).len();
    let missing = if width >= size {
        (width - size + 1) as nat
    } else {
        1
    };
    key + repeated(seq![' '], missing) + "=> "@ + doc
}

/// `parts` one after the other, with `separator` between them.
pub open spec fn joined(parts: Seq<Seq<char>>, separator: Seq<char>) -> Seq<char>
    decreases parts.len(),
{
    if parts.len() == 0 {
        Seq::empty()
    } else if parts.len() == 1 {
        parts[0]
    } else {
        joined(parts.drop_last(), separator) + separator + parts.last()
    }
}

/// A part of the help screen: a title, and commands with what they do.
#[derive(Debug)]
pub struct Section {
    pub title: String,
    pub entries: Vec<(&'static str, &'static str)>,
}

/// The help screen.
#[derive(Debug)]
pub struct Help {
    pub sections: Vec<Section>,
}

/// The commands of `entries`.
pub open spec fn keys_of(entries: Seq<(&'static str, &'static str)>) -> Seq<Seq<char>> {
    Seq::new(entries.len(), |i: int| entries[i].0@)
}

/// The lines of `entries`, in their order, for commands up to `width` bytes
/// long.
pub open spec fn lines_of(entries: Seq<(&'static str, &'static str)>, width: nat) -> Seq<
    Seq<char>,
> {
    Seq::new(entries.len(), |i: int| entry_line(entries[i].0@, entries[i].1@, width))
}

/// The commands and their texts that `entries` hold, in their order.
pub open spec fn entry_texts(entries: Seq<(&'static str, &'static str)>) -> Seq<
    (Seq<char>, Seq<char>),
> {
    Seq::new(entries.len(), |i: int| (entries[i].0@, entries[i].1@))
}

/// Whether no command occurs twice in `entries`.
pub open spec fn keys_distinct(entries: Seq<(&'static str, &'static str)>) -> bool {
    forall|i: int, j: int|
        0 <= i < j < entries.len() ==> (#[trigger] entries[i]).0@ != (#[trigger] entries[j]).0@
}

/// The commands of normal mode, each with what it does.
pub open spec fn normal_commands() -> Seq<(Seq<char>, Seq<char>)> {
    seq![
        ("j"@, "move cursor down one row (<n>j moves it by n rows)"@),
        ("k"@, "move cursor up one row (<n>k moves it by n rows)"@),
        ("h"@, "move cursor left (<n>h moves it n times)"@),
        ("l"@, "move cursor right (<n>l moves it n times)"@),
        ("}"@, "move to the end of the current paragraph (<n>} moves n times)"@),
        ("{"@, "move to the start of the current paragraph (<n>{ moves n times)"@),
        ("w"@, "move to the end of the current word (<n>w moves n times)"@),
        ("b"@, "move to the start of the current word (<n>b moves n times)"@),
        ("i"@, "switch to insert mode"@),
        ("g"@, "go to beginining of document"@),
        ("G"@, "go to end of document"@),
        ("0"@, "go to first character in line"@),
        ("^"@, "go to first non-whitespace character in line"@),
        ("$"@, "go to end of line"@),
        ("H"@, "go to first line in screen"@),
        ("M"@, "go to line in the middle of the screen"@),
        ("L"@, "go to last line in screen"@),
        ("n%"@, "move to n% in the file"@),
        ("/"@, "open search prompt"@),
        ("n"@, "go to next search match"@),
        ("N"@, "go to previous search match"@),
        ("d"@, "delete current line"@),
        ("x"@, "delete current character"@),
        ("o"@, "insert newline after current line & enter insert mode"@),
        ("O"@, "insert newline before current line & enter insert mode"@),
        ("A"@, "go to end of line & enter insert mode"@),
        ("J"@, "join the current line with the next one"@),
        (":"@, "open command prompt"@),
        ("u"@, "undo last operation"@),
    ]
}

/// The commands of the prompt, each with what it does.
pub open spec fn prompt_commands() -> Seq<(Seq<char>, Seq<char>)> {
    seq![
        ("help"@, "display this help screen"@),
        ("ln"@, "toggle line numbers"@),
        ("new <filename>"@, "open a new file"@),
        ("open/o <filename>"@, "open a file"@),
        ("q"@, "quit bo"@),
        ("stats"@, "toggle line/word stats"@),
        ("w <new_name>"@, "save"@),
        ("wq"@, "save and quit"@),
    ]
}

/// The commands of insert mode, each with what it does.
pub open spec fn insert_commands() -> Seq<(Seq<char>, Seq<char>)> {
    seq![
        ("Esc"@, "go back to normal mode"@),
    ]
}

/// A number that tells apart the commands of the help screen: it is made of
/// the length of the command and of its first two characters.
pub open spec fn key_code(key: Seq<char>) -> int {
    key.len() * 0x1_0000_0000_0000 + (if key.len() > 0 {
        key[0] as int
    } else {
        0
    }) * 0x100_0000 + (if key.len() > 1 {
        key[1] as int
    } else {
        0
    })
}

/// No command of normal mode stands twice in the help screen.
pub proof fn lemma_normal_commands_distinct()
    ensures
        forall|i: int, j: int|
            0 <= i < j < normal_commands().len() ==> (#[trigger] normal_commands()[i]).0 != (#[trigger] normal_commands()[j]).0,
{
    reveal_strlit("j");
    reveal_strlit("k");
    reveal_strlit("h");
    reveal_strlit("l");
    reveal_strlit("}");
    reveal_strlit("{");
    reveal_strlit("w");
    reveal_strlit("b");
    reveal_strlit("i");
    reveal_strlit("g");
    reveal_strlit("G");
    reveal_strlit("0");
    reveal_strlit("^");
    reveal_strlit("$");
    reveal_strlit("H");
    reveal_strlit("M");
    reveal_strlit("L");
    reveal_strlit("n%");
    reveal_strlit("/");
    reveal_strlit("n");
    reveal_strlit("N");
    reveal_strlit("d");
    reveal_strlit("x");
    reveal_strlit("o");
    reveal_strlit("O");
    reveal_strlit("A");
    reveal_strlit("J");
    reveal_strlit(":");
    reveal_strlit("u");
    let list = normal_commands();
    assert(list.len() == 29);
    assert(list[0].0 == "j"@);
    assert(key_code(list[0].0) == 281476755095552);
    assert(list[1].0 == "k"@);
    assert(key_code(list[1].0) == 281476771872768);
    assert(list[2].0 == "h"@);
    assert(key_code(list[2].0) == 281476721541120);
    assert(list[3].0 == "l"@);
    assert(key_code(list[3].0) == 281476788649984);
    assert(list[4].0 == "}"@);
    assert(key_code(list[4].0) == 281477073862656);
    assert(list[5].0 == "{"@);
    assert(key_code(list[5].0) == 281477040308224);
    assert(list[6].0 == "w"@);
    assert(key_code(list[6].0) == 281476973199360);
    assert(list[7].0 == "b"@);
    assert(key_code(list[7].0) == 281476620877824);
    assert(list[8].0 == "i"@);
    assert(key_code(list[8].0) == 281476738318336);
    assert(list[9].0 == "g"@);
    assert(key_code(list[9].0) == 281476704763904);
    assert(list[10].0 == "G"@);
    assert(key_code(list[10].0) == 281476167892992);
    assert(list[11].0 == "0"@);
    assert(key_code(list[11].0) == 281475782017024);
    assert(list[12].0 == "^"@);
    assert(key_code(list[12].0) == 281476553768960);
    assert(list[13].0 == "$"@);
    assert(key_code(list[13].0) == 281475580690432);
    assert(list[14].0 == "H"@);
    assert(key_code(list[14].0) == 281476184670208);
    assert(list[15].0 == "M"@);
    assert(key_code(list[15].0) == 281476268556288);
    assert(list[16].0 == "L"@);
    assert(key_code(list[16].0) == 281476251779072);
    assert(list[17].0 == "n%"@);
    assert(key_code(list[17].0) == 562951798915109);
    assert(list[18].0 == "/"@);
    assert(key_code(list[18].0) == 281475765239808);
    assert(list[19].0 == "n"@);
    assert(key_code(list[19].0) == 281476822204416);
    assert(list[20].0 == "N"@);
    assert(key_code(list[20].0) == 281476285333504);
    assert(list[21].0 == "d"@);
    assert(key_code(list[21].0) == 281476654432256);
    assert(list[22].0 == "x"@);
    assert(key_code(list[22].0) == 281476989976576);
    assert(list[23].0 == "o"@);
    assert(key_code(list[23].0) == 281476838981632);
    assert(list[24].0 == "O"@);
    assert(key_code(list[24].0) == 281476302110720);
    assert(list[25].0 == "A"@);
    assert(key_code(list[25].0) == 281476067229696);
    assert(list[26].0 == "J"@);
    assert(key_code(list[26].0) == 281476218224640);
    assert(list[27].0 == ":"@);
    assert(key_code(list[27].0) == 281475949789184);
    assert(list[28].0 == "u"@);
    assert(key_code(list[28].0) == 281476939644928);
    assert forall|i: int, j: int| 0 <= i < j < list.len() implies (#[trigger] list[i]).0 != (
    #[trigger] list[j]).0 by {
        assert(key_code(list[i].0) != key_code(list[j].0));
    }
}

/// No command of the prompt stands twice in the help screen.
pub proof fn lemma_prompt_commands_distinct()
    ensures
        forall|i: int, j: int|
            0 <= i < j < prompt_commands().len() ==> (#[trigger] prompt_commands()[i]).0 != (#[trigger] prompt_commands()[j]).0,
{
    reveal_strlit("help");
    reveal_strlit("ln");
    reveal_strlit("new <filename>");
    reveal_strlit("open/o <filename>");
    reveal_strlit("q");
    reveal_strlit("stats");
    reveal_strlit("w <new_name>");
    reveal_strlit("wq");
    let list = prompt_commands();
    assert(list.len() == 8);
    assert(list[0].0 == "help"@);
    assert(key_code(list[0].0) == 1125901651673189);
    assert(list[1].0 == "ln"@);
    assert(key_code(list[1].0) == 562951765360750);
    assert(list[2].0 == "new <filename>"@);
    assert(key_code(list[2].0) == 3940651519443045);
    assert(list[3].0 == "open/o <filename>"@);
    assert(key_code(list[3].0) == 4785076466352240);
    assert(list[4].0 == "q"@);
    assert(key_code(list[4].0) == 281476872536064);
    assert(list[5].0 == "stats"@);
    assert(key_code(list[5].0) == 1407376812933236);
    assert(list[6].0 == "w <new_name>"@);
    assert(key_code(list[6].0) == 3377701717016608);
    assert(list[7].0 == "wq"@);
    assert(key_code(list[7].0) == 562951949910129);
    assert forall|i: int, j: int| 0 <= i < j < list.len() implies (#[trigger] list[i]).0 != (
    #[trigger] list[j]).0 by {
        assert(key_code(list[i].0) != key_code(list[j].0));
    }
}

/// Whether `text` is the help text of a section with the title `title` and
/// the entries `entries`: the title in bold, and below it the lines of the
/// entries in the order of strings, each after two spaces.
pub open spec fn is_section_text(
    title: Seq<char>,
    entries: Seq<(&'static str, &'static str)>,
    text: Seq<char>,
) -> bool {
    exists|sorted: Seq<Seq<char>>|
        is_sorted(sorted) && sorted.to_multiset() == lines_of(
            entries,
            max_key_size(keys_of(entries)),
        ).to_multiset() && text == bold_spec(title) + "\n  "@ + #[trigger] joined(sorted, "\n  "@)
}

/// All of `parts`, with `separator` between them.
pub fn join(parts: &Vec<String>, separator: &str) -> (r: String)
    ensures
        r@ == joined(texts(parts@), separator@),
{
    let ghost g = texts(parts@);
    let mut out = String::new();
    let mut i: usize = 0;
    assert(g.take(0) =~= Seq::<Seq<char>>::empty());
    while i < parts.len()
        invariant
            i <= parts.len(),
            g == texts(parts@),
            out@ == joined(g.take(i as int), separator@),
        decreases parts.len() - i,
    {
        proof {
            assert(g.take(i + 1).drop_last() =~= g.take(i as int));
            assert(g.take(i + 1).last() == g[i as int]);
            if i == 0 {
                assert(g.take(1)[0] == g[0]);
                assert(out@ + g[0] =~= g[0]);
            }
        }
        if i > 0 {
            out.append(separator);
        }
        out.append(parts[i].as_str());
        i += 1;
    }
    assert(g.take(i as int) =~= g);
    out
}

impl Section {
    /// Whether no command occurs twice in the section, so that the section
    /// says of every command one thing only.
    pub open spec fn well_formed(&self) -> bool {
        keys_distinct(self.entries@)
    }

    /// The number of bytes of the longest command of the section.
    fn max_entry_key_size(&self) -> (r: usize)
        ensures
            r == max_key_size(keys_of(self.entries@)),
    {
        let ghost keys = keys_of(self.entries@);
        let mut size: usize = 0;
        let mut i: usize = 0;
        assert(keys.take(0) =~= Seq::<Seq<char>>::empty());
        while i < self.entries.len()
            invariant
                i <= self.entries.len(),
                keys == keys_of(self.entries@),
                size == max_key_size(keys.take(i as int)),
            decreases self.entries.len() - i,
        {
            proof {
                assert(keys.take(i + 1).drop_last() =~= keys.take(i as int));
                assert(keys.take(i + 1).last() == self.entries@[i as int].0@);
            }
            let length = self.entries[i].0.as_bytes().len();
            if length >= size {
                size = length;
            }
            i += 1;
        }
        assert(keys.take(i as int) =~= keys);
        size
    }

    /// The help text of the section.
    #[must_use]
    pub fn format(&self) -> (r: String)
        ensures
            is_section_text(self.title@, self.entries@, r@),
    {
        let title_str = as_bold(self.title.as_str());
        let mut body: Vec<String> = Vec::new();
        let whitespace_offset = self.max_entry_key_size();
        let ghost lines = lines_of(self.entries@, whitespace_offset as nat);
        let mut i: usize = 0;
        while i < self.entries.len()
            invariant
                i <= self.entries.len(),
                lines == lines_of(self.entries@, whitespace_offset as nat),
                texts(body@) =~= lines.take(i as int),
            decreases self.entries.len() - i,
        {
            let (cmd, cmd_help_msg) = self.entries[i];
            let size = cmd.as_bytes().len();
            let missing: usize = if whitespace_offset >= size {
                whitespace_offset - size
            } else {
                0
            };
            let mut line = String::from_str(cmd);
            let mut k: usize = 0;
            proof {
                reveal_strlit(" ");
                assert(" "@ =~= seq![' ']);
                assert(line@ + repeated(seq![' '], 0) =~= line@);
            }
            while k < missing
                invariant
                    k <= missing,
                    " "@ == seq![' '],
                    line@ == cmd@ + repeated(seq![' '], k as nat),
                decreases missing - k,
            {
                line.append(" ");
                assert(cmd@ + repeated(seq![' '], k as nat) + seq![' '] =~= cmd@ + repeated(
                    seq![' '],
                    (k + 1) as nat,
                ));
                k += 1;
            }
            line.append(" ");
            assert(cmd@ + repeated(seq![' '], missing as nat) + seq![' '] =~= cmd@ + repeated(
                seq![' '],
                (missing + 1) as nat,
            ));
            line.append("=> ");
            line.append(cmd_help_msg);
            assert(line@ == lines[i as int]);
            let ghost before = texts(body@);
            body.push(line);
            assert(texts(body@) =~= before.push(lines[i as int]));
            i += 1;
        }
        assert(lines.take(i as int) =~= lines);
        sort_lines(&mut body);
        let body_str = join(&body, "\n  ");
        let mut out = title_str;
        out.append("\n  ");
        out.append(body_str.as_str());
        assert(out@ == bold_spec(self.title@) + "\n  "@ + joined(texts(body@), "\n  "@));
        out
    }
}

impl Help {
    /// The help screen of the editor: the commands of normal mode, of the
    /// prompt and of insert mode.
    #[must_use]
    pub fn new() -> (r: Help)
        ensures
            r.sections@.len() == 3,
            r.sections@[0].title@ == "Normal commands"@,
            entry_texts(r.sections@[0].entries@) == normal_commands(),
            r.sections@[1].title@ == "Prompt commands"@,
            entry_texts(r.sections@[1].entries@) == prompt_commands(),
            r.sections@[2].title@ == "Insert commands"@,
            entry_texts(r.sections@[2].entries@) == insert_commands(),
            forall|i: int| 0 <= i < 3 ==> (#[trigger] r.sections@[i]).well_formed(),
    {
        let mut normal: Vec<(&'static str, &'static str)> = Vec::new();
        normal.push(("j", "move cursor down one row (<n>j moves it by n rows)"));
        normal.push(("k", "move cursor up one row (<n>k moves it by n rows)"));
        normal.push(("h", "move cursor left (<n>h moves it n times)"));
        normal.push(("l", "move cursor right (<n>l moves it n times)"));
        normal.push(("}", "move to the end of the current paragraph (<n>} moves n times)"));
        normal.push(("{", "move to the start of the current paragraph (<n>{ moves n times)"));
        normal.push(("w", "move to the end of the current word (<n>w moves n times)"));
        normal.push(("b", "move to the start of the current word (<n>b moves n times)"));
        normal.push(("i", "switch to insert mode"));
        normal.push(("g", "go to beginining of document"));
        normal.push(("G", "go to end of document"));
        normal.push(("0", "go to first character in line"));
        normal.push(("^", "go to first non-whitespace character in line"));
        normal.push(("$", "go to end of line"));
        normal.push(("H", "go to first line in screen"));
        normal.push(("M", "go to line in the middle of the screen"));
        normal.push(("L", "go to last line in screen"));
        normal.push(("n%", "move to n% in the file"));
        normal.push(("/", "open search prompt"));
        normal.push(("n", "go to next search match"));
        normal.push(("N", "go to previous search match"));
        normal.push(("d", "delete current line"));
        normal.push(("x", "delete current character"));
        normal.push(("o", "insert newline after current line & enter insert mode"));
        normal.push(("O", "insert newline before current line & enter insert mode"));
        normal.push(("A", "go to end of line & enter insert mode"));
        normal.push(("J", "join the current line with the next one"));
        normal.push((":", "open command prompt"));
        normal.push(("u", "undo last operation"));
        let mut prompt: Vec<(&'static str, &'static str)> = Vec::new();
        prompt.push(("help", "display this help screen"));
        prompt.push(("ln", "toggle line numbers"));
        prompt.push(("new <filename>", "open a new file"));
        prompt.push(("open/o <filename>", "open a file"));
        prompt.push(("q", "quit bo"));
        prompt.push(("stats", "toggle line/word stats"));
        prompt.push(("w <new_name>", "save"));
        prompt.push(("wq", "save and quit"));
        let mut insert: Vec<(&'static str, &'static str)> = Vec::new();
        insert.push(("Esc", "go back to normal mode"));
        proof {
            assert(entry_texts(normal@) =~= normal_commands());
            assert(entry_texts(prompt@) =~= prompt_commands());
            assert(entry_texts(insert@) =~= insert_commands());
            lemma_normal_commands_distinct();
            lemma_prompt_commands_distinct();
            assert(keys_distinct(normal@)) by {
                assert forall|i: int, j: int| 0 <= i < j < normal@.len() implies (
                #[trigger] normal@[i]).0@ != (#[trigger] normal@[j]).0@ by {
                    assert(entry_texts(normal@)[i].0 == normal@[i].0@);
                    assert(entry_texts(normal@)[j].0 == normal@[j].0@);
                }
            }
            assert(keys_distinct(prompt@)) by {
                assert forall|i: int, j: int| 0 <= i < j < prompt@.len() implies (
                #[trigger] prompt@[i]).0@ != (#[trigger] prompt@[j]).0@ by {
                    assert(entry_texts(prompt@)[i].0 == prompt@[i].0@);
                    assert(entry_texts(prompt@)[j].0 == prompt@[j].0@);
                }
            }
        }
        let mut sections: Vec<Section> = Vec::new();
        sections.push(Section { title: String::from_str("Normal commands"), entries: normal });
        sections.push(Section { title: String::from_str("Prompt commands"), entries: prompt });
        sections.push(Section { title: String::from_str("Insert commands"), entries: insert });
        Help { sections }
    }

    /// The text of the help screen: the texts of its sections, with an empty
    /// line between them.
    #[must_use]
    pub fn format(&self) -> (r: String)
        ensures
            exists|parts: Seq<Seq<char>>|
                parts.len() == self.sections@.len() && (forall|i: int|
                    0 <= i < parts.len() ==> is_section_text(
                        self.sections@[i].title@,
                        self.sections@[i].entries@,
                        #[trigger] parts[i],
                    )) && r@ == joined(parts, "\n\n"@),
    {
        let mut out: Vec<String> = Vec::new();
        let ghost mut parts: Seq<Seq<char>> = Seq::empty();
        let mut i: usize = 0;
        assert(texts(out@) =~= parts);
        while i < self.sections.len()
            invariant
                i <= self.sections.len(),
                parts.len() == i,
                texts(out@) == parts,
                forall|j: int|
                    0 <= j < i ==> is_section_text(
                        self.sections@[j].title@,
                        self.sections@[j].entries@,
                        #[trigger] parts[j],
                    ),
            decreases self.sections.len() - i,
        {
            let section_format = self.sections[i].format();
            proof {
                parts = parts.push(section_format@);
            }
            out.push(section_format);
            assert(texts(out@) =~= parts);
            i += 1;
        }
        join(&out, "\n\n")
    }
}

impl Default for Help {
    fn default() -> (r: Self)
        ensures
            r.sections@.len() == 3,
            r.sections@[0].title@ == "Normal commands"@,
            entry_texts(r.sections@[0].entries@) == normal_commands(),
            r.sections@[1].title@ == "Prompt commands"@,
            entry_texts(r.sections@[1].entries@) == prompt_commands(),
            r.sections@[2].title@ == "Insert commands"@,
            entry_texts(r.sections@[2].entries@) == insert_commands(),
            forall|i: int| 0 <= i < 3 ==> (#[trigger] r.sections@[i]).well_formed(),
    {
        Self::new()
    }
}

} // verus!

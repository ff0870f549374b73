//! The configuration: the alias collection plus the default shell, and its
//! durable text form. The file is one line for the shell followed by one
//! line per alias; a line holds tab-separated escaped fields. Parsing is
//! proved to undo serialization exactly, so writing, re-reading and
//! re-writing the file reproduces the same text; text that does not parse is
//! answered with a safe default instead of an error.

use vstd::prelude::*;
use crate::alias::{Alias, AliasV, AliasStore};
use crate::codec::{
    esc, unesc, join, split, has_no, lemma_unesc_esc, lemma_esc_no_ctl, lemma_split_join,
    lemma_join_no_char, push_escaped, unescape_text, split_text, views_of,
};

verus! {

/// Mathematical value of a [`Config`].
#[verifier::ext_equal]
pub struct ConfigV {
    pub aliases: Seq<AliasV>,
    pub default_shell: Seq<char>,
}

/// The in-memory configuration: source of truth for the alias store and the
/// shell used to run commands.
pub struct Config {
    pub aliases: AliasStore,
    pub default_shell: Vec<char>,
}

impl View for Config {
    type V = ConfigV;

    open spec fn view(&self) -> ConfigV {
        ConfigV { aliases: self.aliases@, default_shell: self.default_shell@ }
    }
}

/// The keybind field: empty for no keybind, otherwise the escaped character.
pub open spec fn kb_field(kb: Option<char>) -> Seq<char> {
    match kb {
        Option::None => Seq::empty(),
        Option::Some(c) => esc(seq![c]),
    }
}

/// One alias as a line: name, command and keybind, escaped and tab-joined.
pub open spec fn alias_line(a: AliasV) -> Seq<char> {
    join(seq![esc(a.name), esc(a.command), kb_field(a.keybind)], '\t')
}

/// All lines of the file: the escaped shell first, then one line per alias.
pub open spec fn config_lines(c: ConfigV) -> Seq<Seq<char>> {
    seq![esc(c.default_shell)] + c.aliases.map_values(|a: AliasV| alias_line(a))
}

/// The serialized file: the lines joined with newlines.
pub open spec fn ser_spec(c: ConfigV) -> Seq<char> {
    join(config_lines(c), '\n')
}

/// Reading a keybind field back.
pub open spec fn parse_kb(f: Seq<char>) -> Option<Option<char>> {
    if f.len() == 0 {
        Option::Some(Option::None)
    } else {
        match unesc(f) {
            Option::Some(k) => if k.len() == 1 {
                Option::Some(Option::Some(k[0]))
            } else {
                Option::None
            },
            Option::None => Option::None,
        }
    }
}

/// Reading one alias line back: exactly three fields, each unescapable.
pub open spec fn parse_alias_line(line: Seq<char>) -> Option<AliasV> {
    let fields = split(line, '\t');
    if fields.len() != 3 {
        Option::None
    } else {
        match (unesc(fields[0]), unesc(fields[1]), parse_kb(fields[2])) {
            (Option::Some(name), Option::Some(command), Option::Some(kb)) => Option::Some(
                AliasV { name, command, keybind: kb },
            ),
            _ => Option::None,
        }
    }
}

/// Reading the alias lines back, in order; any bad line rejects the file.
pub open spec fn parse_alias_lines(lines: Seq<Seq<char>>) -> Option<Seq<AliasV>>
    decreases lines.len(),
{
    if lines.len() == 0 {
        Option::Some(Seq::empty())
    } else {
        match parse_alias_line(lines[0]) {
            Option::Some(a) => match parse_alias_lines(lines.drop_first()) {
                Option::Some(rest) => Option::Some(seq![a] + rest),
                Option::None => Option::None,
            },
            Option::None => Option::None,
        }
    }
}

/// Reading a whole file back.
pub open spec fn parse_spec(s: Seq<char>) -> Option<ConfigV> {
    let lines = split(s, '\n');
    match unesc(lines[0]) {
        Option::Some(shell) => match parse_alias_lines(lines.drop_first()) {
            Option::Some(aliases) => Option::Some(ConfigV { aliases, default_shell: shell }),
            Option::None => Option::None,
        },
        Option::None => Option::None,
    }
}

/// What loading makes of arbitrary file text: the parsed configuration, or
/// an empty one with the fallback shell when the text does not parse.
pub open spec fn load_spec(s: Seq<char>, fallback_shell: Seq<char>) -> ConfigV {
    match parse_spec(s) {
        Option::Some(c) => c,
        Option::None => ConfigV { aliases: Seq::empty(), default_shell: fallback_shell },
    }
}

proof fn lemma_kb_roundtrip(kb: Option<char>)
    ensures
        parse_kb(kb_field(kb)) == Option::Some(kb),
        has_no(kb_field(kb), '\n'),
        has_no(kb_field(kb), '\t'),
{
    match kb {
        Option::None => {},
        Option::Some(c) => {
            lemma_unesc_esc(seq![c]);
            lemma_esc_no_ctl(seq![c]);
            assert(esc(seq![c]).len() > 0) by {
                if esc(seq![c]).len() == 0 {
                    assert(unesc(esc(seq![c])) == Option::Some(Seq::<char>::empty()));
                }
            }
            assert(seq![c][0] == c);
        },
    }
}

proof fn lemma_alias_line_roundtrip(a: AliasV)
    ensures
        parse_alias_line(alias_line(a)) == Option::Some(a),
        has_no(alias_line(a), '\n'),
{
    let pieces = seq![esc(a.name), esc(a.command), kb_field(a.keybind)];
    lemma_esc_no_ctl(a.name);
    lemma_esc_no_ctl(a.command);
    lemma_kb_roundtrip(a.keybind);
    assert(pieces[0] == esc(a.name));
    assert(pieces[1] == esc(a.command));
    assert(pieces[2] == kb_field(a.keybind));
    assert(forall|k: int| 0 <= k < pieces.len() ==> has_no(#[trigger] pieces[k], '\t'));
    lemma_split_join(pieces, '\t');
    assert(forall|k: int| 0 <= k < pieces.len() ==> has_no(#[trigger] pieces[k], '\n'));
    lemma_join_no_char(pieces, '\t', '\n');
    let fields = split(alias_line(a), '\t');
    assert(fields == pieces);
    lemma_unesc_esc(a.name);
    lemma_unesc_esc(a.command);
    assert(parse_alias_line(alias_line(a)) == Option::Some(
        AliasV { name: a.name, command: a.command, keybind: a.keybind },
    ));
    assert(AliasV { name: a.name, command: a.command, keybind: a.keybind } =~= a);
}

proof fn lemma_parse_lines_roundtrip(aliases: Seq<AliasV>)
    ensures
        parse_alias_lines(aliases.map_values(|a: AliasV| alias_line(a))) == Option::Some(aliases),
    decreases aliases.len(),
{
    let lines = aliases.map_values(|a: AliasV| alias_line(a));
    if aliases.len() == 0 {
        assert(lines.len() == 0);
        assert(Seq::<AliasV>::empty() =~= aliases);
    } else {
        lemma_parse_lines_roundtrip(aliases.drop_first());
        assert(lines[0] == alias_line(aliases[0]));
        lemma_alias_line_roundtrip(aliases[0]);
        assert(lines.drop_first() =~= aliases.drop_first().map_values(
            |a: AliasV| alias_line(a),
        ));
        assert(parse_alias_lines(lines) == Option::Some(seq![aliases[0]] + aliases.drop_first()));
        assert(seq![aliases[0]] + aliases.drop_first() =~= aliases);
    }
}

/// Parsing a serialized configuration recovers it exactly.
pub proof fn lemma_parse_ser(c: ConfigV)
    ensures
        parse_spec(ser_spec(c)) == Option::Some(c),
{
    let alines = c.aliases.map_values(|a: AliasV| alias_line(a));
    let lines = config_lines(c);
    lemma_esc_no_ctl(c.default_shell);
    assert forall|k: int| 0 <= k < lines.len() implies has_no(#[trigger] lines[k], '\n') by {
        if k == 0 {
            assert(lines[0] == esc(c.default_shell));
        } else {
            assert(lines[k] == alias_line(c.aliases[k - 1]));
            lemma_alias_line_roundtrip(c.aliases[k - 1]);
        }
    }
    lemma_split_join(lines, '\n');
    assert(split(ser_spec(c), '\n') == lines);
    assert(lines[0] == esc(c.default_shell));
    lemma_unesc_esc(c.default_shell);
    assert(lines.drop_first() =~= alines);
    lemma_parse_lines_roundtrip(c.aliases);
    assert(parse_spec(ser_spec(c)) == Option::Some(
        ConfigV { aliases: c.aliases, default_shell: c.default_shell },
    ));
    assert(ConfigV { aliases: c.aliases, default_shell: c.default_shell } =~= c);
}

/// Persistence is idempotent: loading whatever text is on disk and saving,
/// then loading and saving again, writes byte-for-byte the same text the
/// first save wrote — whichever fallback shells the two loads used.
pub proof fn lemma_save_load_stable(s: Seq<char>, fb1: Seq<char>, fb2: Seq<char>)
    ensures
        ser_spec(load_spec(ser_spec(load_spec(s, fb1)), fb2)) == ser_spec(load_spec(s, fb1)),
{
    lemma_parse_ser(load_spec(s, fb1));
}

/// Serialize the configuration to its file text.
pub fn serialize_config(c: &Config) -> (out: Vec<char>)
    ensures
        out@ == ser_spec(c@),
{
    let ghost lines = config_lines(c@);
    let mut out: Vec<char> = Vec::new();
    push_escaped(&mut out, &c.default_shell);
    proof {
        assert(Seq::<char>::empty() + esc(c.default_shell@) =~= esc(c.default_shell@));
        assert(lines.take(1) =~= seq![esc(c.default_shell@)]);
        assert(join(lines.take(1), '\n') == esc(c.default_shell@));
    }
    let n = c.aliases.len();
    let mut k: usize = 0;
    while k < n
        invariant
            k <= n,
            n == c.aliases@.len(),
            lines == config_lines(c@),
            lines.len() == n + 1,
            out@ == join(lines.take(k + 1), '\n'),
        decreases n - k,
    {
        out.push('\n');
        let ghost base = out@;
        let a = c.aliases.get(k);
        let ghost av = c.aliases@[k as int];
        push_escaped(&mut out, &a.name);
        out.push('\t');
        push_escaped(&mut out, &a.command);
        out.push('\t');
        match &a.keybind {
            Option::Some(ch) => {
                let mut kbuf: Vec<char> = Vec::new();
                kbuf.push(*ch);
                push_escaped(&mut out, &kbuf);
                proof {
                    assert(kbuf@ =~= seq![av.keybind->0]);
                }
            },
            Option::None => {
                proof {
                    assert(out@ + kb_field(av.keybind) =~= out@);
                }
            },
        }
        proof {
            let pieces = seq![esc(av.name), esc(av.command), kb_field(av.keybind)];
            assert(out@ =~= base + (esc(av.name) + seq!['\t'] + (esc(av.command) + seq!['\t']
                + kb_field(av.keybind))));
            assert(pieces.drop_first() =~= seq![esc(av.command), kb_field(av.keybind)]);
            assert(pieces.drop_first().drop_first() =~= seq![kb_field(av.keybind)]);
            assert(pieces.drop_first().len() == 2);
            assert(pieces.drop_first()[0] == esc(av.command));
            assert(pieces.drop_first().drop_first()[0] == kb_field(av.keybind));
            assert(join(pieces.drop_first().drop_first(), '\t') == kb_field(av.keybind));
            assert(join(pieces.drop_first(), '\t') == pieces.drop_first()[0] + seq!['\t'] + join(
                pieces.drop_first().drop_first(),
                '\t',
            ));
            assert(join(pieces, '\t') == esc(av.name) + seq!['\t'] + join(
                pieces.drop_first(),
                '\t',
            ));
            assert(esc(av.name) + seq!['\t'] + (esc(av.command) + seq!['\t'] + kb_field(
                av.keybind,
            )) =~= join(pieces, '\t'));
            assert(out@ =~= base + alias_line(av));
            assert(lines[k + 1] == alias_line(av));
            lemma_join_snoc_lines(lines, k + 1);
            assert(lines.take(k + 2) =~= lines.take(k + 1).push(lines[k + 1]));
            assert(out@ =~= join(lines.take(k + 2), '\n'));
        }
        k = k + 1;
    }
    proof {
        assert(lines.take(n + 1) =~= lines);
    }
    out
}

/// Appending one more line to a joined prefix appends a newline and the line.
proof fn lemma_join_snoc_lines(lines: Seq<Seq<char>>, k: int)
    requires
        1 <= k < lines.len(),
    ensures
        join(lines.take(k + 1), '\n') == join(lines.take(k), '\n') + seq!['\n'] + lines[k],
{
    assert(lines.take(k + 1) =~= lines.take(k).push(lines[k]));
    lemma_join_snoc(lines.take(k), lines[k], '\n');
}

/// Joining `pieces.push(p)` appends a separator and `p` to joining `pieces`.
proof fn lemma_join_snoc(pieces: Seq<Seq<char>>, p: Seq<char>, sep: char)
    requires
        pieces.len() >= 1,
    ensures
        join(pieces.push(p), sep) == join(pieces, sep) + seq![sep] + p,
    decreases pieces.len(),
{
    if pieces.len() == 1 {
        let w = pieces.push(p);
        assert(w.len() == 2);
        assert(w[0] == pieces[0]);
        assert(w.drop_first() =~= seq![p]);
        assert(join(w.drop_first(), sep) == p);
        assert(join(w, sep) == w[0] + seq![sep] + p);
    } else {
        lemma_join_snoc(pieces.drop_first(), p, sep);
        let w = pieces.push(p);
        assert(w[0] == pieces[0]);
        assert(w.drop_first() =~= pieces.drop_first().push(p));
        assert(join(w, sep) == w[0] + seq![sep] + join(pieces.drop_first().push(p), sep));
        assert(pieces[0] + seq![sep] + (join(pieces.drop_first(), sep) + seq![sep] + p) =~= (
        pieces[0] + seq![sep] + join(pieces.drop_first(), sep)) + seq![sep] + p);
    }
}

/// Parse one alias line.
fn parse_alias_text(line: &Vec<char>) -> (r: Option<Alias>)
    ensures
        match r {
            Option::Some(a) => parse_alias_line(line@) == Option::Some(a@),
            Option::None => parse_alias_line(line@) is None,
        },
{
    let fields = split_text(line, '\t');
    if fields.len() != 3 {
        return Option::None;
    }
    proof {
        assert(views_of(fields@)[0] == fields@[0]@);
        assert(views_of(fields@)[1] == fields@[1]@);
        assert(views_of(fields@)[2] == fields@[2]@);
    }
    let name = match unescape_text(&fields[0]) {
        Option::Some(v) => v,
        Option::None => {
            return Option::None;
        },
    };
    let command = match unescape_text(&fields[1]) {
        Option::Some(v) => v,
        Option::None => {
            return Option::None;
        },
    };
    let keybind: Option<char>;
    if fields[2].len() == 0 {
        keybind = Option::None;
    } else {
        match unescape_text(&fields[2]) {
            Option::Some(k) => {
                if k.len() == 1 {
                    keybind = Option::Some(k[0]);
                } else {
                    return Option::None;
                }
            },
            Option::None => {
                return Option::None;
            },
        }
    }
    Option::Some(Alias { name, command, keybind })
}

/// Parse file text; `None` when the text is not a serialized configuration.
pub fn parse_config(text: &Vec<char>) -> (r: Option<Config>)
    ensures
        match r {
            Option::Some(c) => parse_spec(text@) == Option::Some(c@),
            Option::None => parse_spec(text@) is None,
        },
{
    let lines = split_text(text, '\n');
    let ghost lv = views_of(lines@);
    proof {
        assert(lv[0] == lines@[0]@);
    }
    let shell = match unescape_text(&lines[0]) {
        Option::Some(v) => v,
        Option::None => {
            return Option::None;
        },
    };
    let mut store = AliasStore::new();
    let n = lines.len();
    let mut k: usize = 1;
    proof {
        assert(lv.subrange(1, 1 as int) =~= Seq::<Seq<char>>::empty());
        assert(store@ =~= Seq::<AliasV>::empty());
    }
    while k < n
        invariant
            1 <= k <= n,
            n == lines@.len(),
            lv == views_of(lines@),
            lv == split(text@, '\n'),
            lv.len() == n,
            unesc(lv[0]) == Option::Some(shell@),
            match parse_alias_lines(lv.subrange(k as int, n as int)) {
                Option::Some(rest) => parse_alias_lines(lv.drop_first()) == Option::Some(
                    store@ + rest,
                ),
                Option::None => parse_alias_lines(lv.drop_first()) is None,
            },
        decreases n - k,
    {
        proof {
            assert(lv[k as int] == lines@[k as int]@);
        }
        match parse_alias_text(&lines[k]) {
            Option::Some(a) => {
                let ghost pre = store@;
                let Alias { name, command, keybind } = a;
                let ghost av = AliasV { name: name@, command: command@, keybind };
                store.add(name, command, keybind);
                proof {
                    let tail = lv.subrange(k as int, n as int);
                    let tail2 = lv.subrange(k + 1, n as int);
                    assert(tail[0] == lv[k as int]);
                    assert(tail.drop_first() =~= tail2);
                    assert(parse_alias_line(tail[0]) == Option::Some(av));
                    match parse_alias_lines(tail2) {
                        Option::Some(rest2) => {
                            assert(parse_alias_lines(tail) == Option::Some(seq![av] + rest2));
                            assert(pre + (seq![av] + rest2) =~= (pre.push(av)) + rest2);
                        },
                        Option::None => {
                            assert(parse_alias_lines(tail) is None);
                        },
                    }
                }
            },
            Option::None => {
                proof {
                    let tail = lv.subrange(k as int, n as int);
                    assert(tail[0] == lv[k as int]);
                    assert(parse_alias_lines(tail) is None);
                }
                return Option::None;
            },
        }
        k = k + 1;
    }
    proof {
        assert(lv.subrange(k as int, n as int) =~= Seq::<Seq<char>>::empty());
        assert(store@ + Seq::<AliasV>::empty() =~= store@);
        assert(parse_alias_lines(lv.drop_first()) == Option::Some(store@));
        assert(lv == split(text@, '\n'));
    }
    Option::Some(Config { aliases: store, default_shell: shell })
}

impl Config {
    /// An empty configuration with the given shell.
    pub fn empty_with_shell(shell: Vec<char>) -> (r: Config)
        ensures
            r@.aliases == Seq::<AliasV>::empty(),
            r@.default_shell == shell@,
    {
        let r = Config { aliases: AliasStore::new(), default_shell: shell };
        r
    }

    /// What loading does with the text found on disk: the parsed
    /// configuration, or — when the text is not well formed — an empty one
    /// with the fallback shell, so startup never fails on a bad file.
    pub fn load_from_text(text: &Vec<char>, fallback_shell: Vec<char>) -> (r: Config)
        ensures
            r@ == load_spec(text@, fallback_shell@),
    {
        match parse_config(text) {
            Option::Some(c) => c,
            Option::None => Config::empty_with_shell(fallback_shell),
        }
    }

    /// The file text to write back after a mutation.
    pub fn save_to_text(&self) -> (out: Vec<char>)
        ensures
            out@ == ser_spec(self@),
    {
        serialize_config(self)
    }
}

} // verus!

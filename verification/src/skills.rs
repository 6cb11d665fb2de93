//! SKILL.md handling: frontmatter, skill names and keys, and the XML the
//! skill index is written in.

use vstd::prelude::*;
use vstd::string::{StrSliceExecFns, StringExecFns};
use crate::text::{
    chars_of, has_prefix, find_first, find_chars, leading_ws, char_is_whitespace, str_starts_with,
    ascii_lower_seq, ascii_lowercase, replace_all, str_replace, string_from_chars, split_char,
    split_on_char, lines, lines_of, trim, trim_chars, trim_char, trim_matches_chars, strip_prefix,
    strip_prefix_chars, lemma_find_from, lemma_leading_ws_bound, opt_usize,
};

verus! {

/// `s` without leading white space (`str::trim_start`).
pub open spec fn trim_start(s: Seq<char>) -> Seq<char> {
    s.skip(leading_ws(s) as int)
}

/// The body after a frontmatter block opened by `fence` at the start of
/// `content` and closed by a line starting with `fence`, leading white space
/// removed; `None` when the block is not closed.
pub open spec fn after_fence(content: Seq<char>, fence: Seq<char>) -> Option<Seq<char>> {
    match find_first(content.skip(3), seq!['\n'] + fence) {
        Some(e) => Some(trim_start(content.skip(3 + e + 4))),
        None => None,
    }
}

/// A skill's content without its YAML (`---`) or TOML (`+++`) frontmatter.
pub open spec fn spec_strip_skill_frontmatter(content: Seq<char>) -> Seq<char> {
    if has_prefix(content, "---"@) {
        match after_fence(content, "---"@) {
            Some(body) => body,
            None => content,
        }
    } else if has_prefix(content, "+++"@) {
        match after_fence(content, "+++"@) {
            Some(body) => body,
            None => content,
        }
    } else {
        content
    }
}

/// Where the body after the closing fence starts, if the fence closes.
fn body_start(v: &Vec<char>, closing: &str) -> (res: Option<usize>)
    requires
        v@.len() >= 3,
        closing@.len() == 4,
    ensures
        match res {
            Some(start) => start <= v@.len() && match find_first(v@.skip(3), closing@) {
                Some(e) => start == 3 + e + 4,
                None => false,
            },
            None => find_first(v@.skip(3), closing@) is None,
        },
{
    let rest: Vec<char> = crate::text::slice_chars(v, 3, v.len());
    assert(rest@ =~= v@.skip(3));
    let close = chars_of(closing);
    proof {
        lemma_find_from(rest@, close@, 0);
    }
    match find_chars(&rest, &close) {
        Some(e) => Some(3 + e + 4),
        None => None,
    }
}

/// Strip YAML or TOML frontmatter from skill content, returning the body
/// after the closing delimiter.
pub fn strip_skill_frontmatter(content: &str) -> (res: &str)
    ensures
        res@ == spec_strip_skill_frontmatter(content@),
{
    proof {
        reveal_strlit("---");
        reveal_strlit("+++");
        reveal_strlit("\n---");
        reveal_strlit("\n+++");
    }
    let yaml = str_starts_with(content, "---");
    let toml = !yaml && str_starts_with(content, "+++");
    if !yaml && !toml {
        return content;
    }
    let v = chars_of(content);
    let closing = if yaml { "\n---" } else { "\n+++" };
    assert(closing@ == seq!['\n'] + (if yaml { "---"@ } else { "+++"@ }));
    match body_start(&v, closing) {
        Some(start) => {
            let n = content.unicode_len();
            let mut lo = start;
            while lo < n && char_is_whitespace(v[lo])
                invariant
                    start <= lo <= n,
                    n == v@.len(),
                    leading_ws(v@.skip(start as int)) == (lo - start) + leading_ws(v@.skip(lo as int)),
                decreases n - lo,
            {
                assert(v@.skip(lo as int).drop_first() =~= v@.skip(lo + 1));
                lo += 1;
            }
            assert(leading_ws(v@.skip(lo as int)) == 0);
            assert(v@.skip(start as int).skip(leading_ws(v@.skip(start as int)) as int) =~= v@.skip(
                lo as int,
            ));
            let body = content.substring_char(lo, n);
            assert(body@ =~= v@.skip(lo as int));
            body
        },
        None => content,
    }
}

/// `name` as a skill key: ASCII lower case, `_` and space turned into `-`.
pub open spec fn spec_normalize_skill_key(name: Seq<char>) -> Seq<char> {
    replace_all(replace_all(ascii_lower_seq(name), "_"@, "-"@), " "@, "-"@)
}

/// Normalize a skill name into its comparison key.
pub fn normalize_skill_key(name: &str) -> (res: String)
    ensures
        res@ == spec_normalize_skill_key(name@),
{
    proof {
        reveal_strlit("_");
        reveal_strlit(" ");
    }
    let lowered = string_from_chars(&ascii_lowercase(&chars_of(name)));
    let dashed = str_replace(lowered.as_str(), "_", "-");
    str_replace(dashed.as_str(), " ", "-")
}

/// The non-empty pieces of a split.
pub open spec fn nonempty_pieces(pieces: Seq<Seq<char>>) -> Seq<Seq<char>>
    decreases pieces.len(),
{
    if pieces.len() == 0 {
        seq![]
    } else if pieces.last().len() == 0 {
        nonempty_pieces(pieces.drop_last())
    } else {
        nonempty_pieces(pieces.drop_last()).push(pieces.last())
    }
}

/// The skill name a path names: its second-to-last non-empty segment, or
/// `unknown` when it has fewer than two.
pub open spec fn spec_skill_name_from_path(path: Seq<char>) -> Seq<char> {
    let segments = nonempty_pieces(split_char(path, '/'));
    if segments.len() >= 2 {
        segments[segments.len() - 2]
    } else {
        "unknown"@
    }
}

/// Extract the skill name from a TemperFS path
/// (`/skills/my-skill/SKILL.md` is `my-skill`).
pub fn skill_name_from_path(path: &str) -> (res: String)
    ensures
        res@ == spec_skill_name_from_path(path@),
{
    let pieces = split_on_char(&chars_of(path), '/');
    let ghost pv = pieces@.map_values(|p: Vec<char>| p@);
    let mut segments: Vec<Vec<char>> = Vec::new();
    let mut i: usize = 0;
    while i < pieces.len()
        invariant
            i <= pieces@.len(),
            pv == pieces@.map_values(|p: Vec<char>| p@),
            segments@.map_values(|p: Vec<char>| p@) == nonempty_pieces(pv.take(i as int)),
        decreases pieces@.len() - i,
    {
        assert(pv.take(i + 1).drop_last() =~= pv.take(i as int));
        if pieces[i].len() > 0 {
            let ghost before = segments@.map_values(|p: Vec<char>| p@);
            segments.push(crate::text::slice_chars(&pieces[i], 0, pieces[i].len()));
            assert(pieces@[i as int]@.subrange(0, pieces@[i as int]@.len() as int) =~= pieces@[i as int]@);
            assert(segments@.map_values(|p: Vec<char>| p@) =~= before.push(pv[i as int]));
        }
        i += 1;
    }
    assert(pv.take(pieces@.len() as int) =~= pv);
    proof {
        reveal_strlit("unknown");
    }
    if segments.len() >= 2 {
        let seg = &segments[segments.len() - 2];
        string_from_chars(seg)
    } else {
        String::from_str("unknown")
    }
}

/// `s` with `&`, `<`, `>` and `"` written as XML entities.
pub open spec fn spec_xml_escape(s: Seq<char>) -> Seq<char> {
    replace_all(
        replace_all(replace_all(replace_all(s, "&"@, "&amp;"@), "<"@, "&lt;"@), ">"@, "&gt;"@),
        "\""@,
        "&quot;"@,
    )
}

/// Escape text for an XML attribute.
pub fn xml_escape(s: &str) -> (res: String)
    ensures
        res@ == spec_xml_escape(s@),
{
    proof {
        reveal_strlit("&");
        reveal_strlit("<");
        reveal_strlit(">");
        reveal_strlit("\"");
    }
    let a = str_replace(s, "&", "&amp;");
    let b = str_replace(a.as_str(), "<", "&lt;");
    let c = str_replace(b.as_str(), ">", "&gt;");
    str_replace(c.as_str(), "\"", "&quot;")
}

/// Precedence of a skill by where it lives: agent, then project, then system.
pub open spec fn spec_scope_priority(path: Seq<char>) -> u8 {
    if has_prefix(path, "/agents/"@) {
        0
    } else if has_prefix(path, "/projects/"@) {
        1
    } else {
        2
    }
}

/// Precedence of a skill path.
pub fn scope_priority(path: &str) -> (res: u8)
    ensures
        res == spec_scope_priority(path@),
{
    if str_starts_with(path, "/agents/") {
        0
    } else if str_starts_with(path, "/projects/") {
        1
    } else {
        2
    }
}

/// A frontmatter value: trimmed, then surrounding `"` and `'` removed.
pub open spec fn unquote(v: Seq<char>) -> Seq<char> {
    trim_char(trim_char(trim(v), '"'), '\'')
}

/// The value of `key` on a trimmed TOML line `key = value`.
pub open spec fn toml_value(line: Seq<char>, key: Seq<char>) -> Option<Seq<char>> {
    match strip_prefix(line, key) {
        Some(r) => strip_prefix(trim(r), "="@),
        None => None,
    }
}

/// The value of `key` on a trimmed line: `key:` for YAML, `key =` for TOML.
pub open spec fn line_value(line: Seq<char>, key: Seq<char>, yaml: bool) -> Option<Seq<char>> {
    if yaml {
        strip_prefix(line, key + ":"@)
    } else {
        toml_value(line, key)
    }
}

/// Name, description and scope after reading one more frontmatter line.
pub open spec fn frontmatter_step(acc: (Seq<char>, Seq<char>, Seq<char>), line: Seq<char>, yaml: bool) -> (
    Seq<char>,
    Seq<char>,
    Seq<char>,
) {
    let t = trim(line);
    if line_value(t, "name"@, yaml) is Some {
        (unquote(line_value(t, "name"@, yaml)->0), acc.1, acc.2)
    } else if line_value(t, "description"@, yaml) is Some {
        (acc.0, unquote(line_value(t, "description"@, yaml)->0), acc.2)
    } else if line_value(t, "scope"@, yaml) is Some {
        (acc.0, acc.1, unquote(line_value(t, "scope"@, yaml)->0))
    } else {
        acc
    }
}

/// Name, description and scope read from frontmatter lines, later lines
/// overriding earlier ones; scope defaults to `global`.
pub open spec fn read_frontmatter(lines: Seq<Seq<char>>, yaml: bool) -> (Seq<char>, Seq<char>, Seq<char>)
    decreases lines.len(),
{
    if lines.len() == 0 {
        (seq![], seq![], "global"@)
    } else {
        frontmatter_step(read_frontmatter(lines.drop_last(), yaml), lines.last(), yaml)
    }
}

/// The frontmatter block between an opening `fence` and the next line
/// starting with it.
pub open spec fn fence_block(content: Seq<char>, fence: Seq<char>) -> Option<Seq<char>> {
    match find_first(content.skip(3), seq!['\n'] + fence) {
        Some(e) => Some(content.skip(3).take(e)),
        None => None,
    }
}

/// Name, description and scope declared by a skill's YAML or TOML frontmatter.
pub open spec fn spec_parse_skill_frontmatter(content: Seq<char>) -> (Seq<char>, Seq<char>, Seq<char>) {
    if has_prefix(content, "---"@) {
        match fence_block(content, "---"@) {
            Some(block) => read_frontmatter(lines(block), true),
            None => (seq![], seq![], "global"@),
        }
    } else if has_prefix(content, "+++"@) {
        match fence_block(content, "+++"@) {
            Some(block) => read_frontmatter(lines(block), false),
            None => (seq![], seq![], "global"@),
        }
    } else {
        (seq![], seq![], "global"@)
    }
}

/// The unquoted value of `key` on a trimmed line, if the line sets it.
fn line_value_exec(t: &Vec<char>, key: &str, yaml: bool) -> (res: Option<Vec<char>>)
    ensures
        match res {
            Some(v) => line_value(t@, key@, yaml) is Some && v@ == unquote(line_value(t@, key@, yaml)->0),
            None => line_value(t@, key@, yaml) is None,
        },
{
    proof {
        reveal_strlit(":");
        reveal_strlit("=");
    }
    let raw = if yaml {
        let mut prefix = String::from_str(key);
        prefix.append(":");
        strip_prefix_chars(t, prefix.as_str())
    } else {
        match strip_prefix_chars(t, key) {
            Some(r) => strip_prefix_chars(&trim_chars(&r), "="),
            None => None,
        }
    };
    match raw {
        Some(r) => Some(trim_matches_chars(&trim_matches_chars(&trim_chars(&r), '"'), '\'')),
        None => None,
    }
}

/// Parse YAML or TOML frontmatter from SKILL.md content into
/// (name, description, scope).
pub fn parse_skill_frontmatter(content: &str) -> (res: (String, String, String))
    ensures
        (res.0@, res.1@, res.2@) == spec_parse_skill_frontmatter(content@),
{
    proof {
        reveal_strlit("---");
        reveal_strlit("+++");
        reveal_strlit("\n---");
        reveal_strlit("\n+++");
        reveal_strlit("global");
    }
    let mut name: Vec<char> = Vec::new();
    let mut description: Vec<char> = Vec::new();
    let mut scope: Vec<char> = chars_of("global");
    let yaml = str_starts_with(content, "---");
    let toml = !yaml && str_starts_with(content, "+++");
    if yaml || toml {
        let v = chars_of(content);
        let rest = crate::text::slice_chars(&v, 3, v.len());
        assert(rest@ =~= v@.skip(3));
        let closing = if yaml { "\n---" } else { "\n+++" };
        assert(closing@ == seq!['\n'] + (if yaml { "---"@ } else { "+++"@ }));
        let close = chars_of(closing);
        proof {
            lemma_find_from(rest@, close@, 0);
        }
        if let Some(e) = find_chars(&rest, &close) {
            let block = crate::text::slice_chars(&rest, 0, e);
            assert(block@ =~= rest@.take(e as int));
            let block_lines = lines_of(&block);
            let ghost lv = block_lines@.map_values(|l: Vec<char>| l@);
            let mut i: usize = 0;
            while i < block_lines.len()
                invariant
                    i <= block_lines@.len(),
                    lv == block_lines@.map_values(|l: Vec<char>| l@),
                    (name@, description@, scope@) == read_frontmatter(lv.take(i as int), yaml),
                decreases block_lines@.len() - i,
            {
                assert(lv.take(i + 1).drop_last() =~= lv.take(i as int));
                let t = trim_chars(&block_lines[i]);
                proof {
                    reveal_strlit("name");
                    reveal_strlit("description");
                    reveal_strlit("scope");
                }
                if let Some(val) = line_value_exec(&t, "name", yaml) {
                    name = val;
                } else if let Some(val) = line_value_exec(&t, "description", yaml) {
                    description = val;
                } else if let Some(val) = line_value_exec(&t, "scope", yaml) {
                    scope = val;
                }
                i += 1;
            }
            assert(lv.take(block_lines@.len() as int) =~= lv);
        }
    }
    (string_from_chars(&name), string_from_chars(&description), string_from_chars(&scope))
}

} // verus!

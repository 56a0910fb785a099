//! The command grammar shared by both platforms' command handlers, and the
//! pure text helpers of the message pipeline. The regex-driven markup
//! converters are an outside text collaborator and are not part of the
//! library.

use vstd::prelude::*;

use crate::text::push_char;
use crate::text::spec_find;
use crate::text::spec_join;
use crate::text::spec_replace;
use crate::text::spec_starts_with;
use crate::text::spec_tokens;
use crate::text::spec_trim;
use crate::text::find_char;
use crate::text::join_strings;
use crate::text::replace_all;
use crate::text::split_ws;
use crate::text::string_eq_str;
use crate::text::trim;

verus! {

/// A parsed command line: the command word and its arguments.
#[derive(Debug, Clone, PartialEq, Eq)]
pub struct ParsedCommand {
    pub command: String,
    pub args: Vec<String>,
}

/// What a prefixed command line parses to: nothing when the prefix is
/// absent, the `help` command for a bare prefix, otherwise the first token
/// as the command and the rest as arguments.
pub open spec fn spec_parse_prefixed_command(prefix: Seq<char>, message: Seq<char>) -> Option<
    (Seq<char>, Seq<Seq<char>>),
> {
    let trimmed = spec_trim(message);
    if !spec_starts_with(trimmed, prefix) {
        None
    } else {
        let remainder = spec_trim(trimmed.subrange(prefix.len() as int, trimmed.len() as int));
        if remainder.len() == 0 {
            Some(("help"@, Seq::empty()))
        } else {
            let tokens = spec_tokens(remainder);
            if tokens.len() == 0 {
                Some(("help"@, Seq::empty()))
            } else {
                Some((tokens[0], tokens.drop_first()))
            }
        }
    }
}

/// Parses a prefixed command line.
pub fn parse_prefixed_command(prefix: &str, message: &str) -> (r: Option<ParsedCommand>)
    ensures
        match r {
            Some(p) => spec_parse_prefixed_command(prefix@, message@) matches Some(s) && p.command@
                == s.0 && p.args@.map_values(|a: String| a@) == s.1,
            None => spec_parse_prefixed_command(prefix@, message@) is None,
        },
{
    let trimmed = trim(message);
    if !crate::text::starts_with(trimmed.as_str(), prefix) {
        return None;
    }
    let tail = trimmed.as_str().substring_char(prefix.unicode_len(), trimmed.as_str().unicode_len());
    let remainder = trim(tail);
    if remainder.as_str().is_empty() {
        proof {
            assert(Seq::<String>::empty().map_values(|a: String| a@) =~= Seq::<Seq<char>>::empty());
        }
        return Some(ParsedCommand { command: "help".to_owned(), args: Vec::new() });
    }
    let mut tokens = split_ws(remainder.as_str());
    if tokens.len() == 0 {
        proof {
            assert(Seq::<String>::empty().map_values(|a: String| a@) =~= Seq::<Seq<char>>::empty());
        }
        return Some(ParsedCommand { command: "help".to_owned(), args: Vec::new() });
    }
    let ghost all = tokens@.map_values(|a: String| a@);
    let command = tokens.remove(0);
    proof {
        assert(tokens@.map_values(|a: String| a@) =~= all.drop_first());
    }
    Some(ParsedCommand { command, args: tokens })
}

/// What a guild/channel argument pair parses to: `guild/channel` in the
/// first argument, or guild then channel as two arguments, an explicit
/// second argument winning; empty ids parse to nothing.
pub open spec fn spec_parse_guild_and_channel(args: Seq<Seq<char>>) -> Option<
    (Seq<char>, Seq<char>),
> {
    if args.len() == 0 {
        None
    } else {
        let first = args[0];
        let guild: Seq<char> = match spec_find(first, '/') {
            Some(i) => first.subrange(0, i),
            None => first,
        };
        let from_first: Option<Seq<char>> = match spec_find(first, '/') {
            Some(i) => Some(first.subrange(i + 1, first.len() as int)),
            None => None,
        };
        let channel: Option<Seq<char>> = if args.len() >= 2 {
            Some(args[1])
        } else {
            from_first
        };
        match channel {
            Some(c) => if guild.len() == 0 || c.len() == 0 {
                None
            } else {
                Some((guild, c))
            },
            None => None,
        }
    }
}

/// Parses the guild and channel ids of a bridge command.
pub fn parse_guild_and_channel(args: &Vec<String>) -> (r: Option<(String, String)>)
    ensures
        match r {
            Some(p) => spec_parse_guild_and_channel(args@.map_values(|a: String| a@)) matches Some(
                s,
            ) && p.0@ == s.0 && p.1@ == s.1,
            None => spec_parse_guild_and_channel(args@.map_values(|a: String| a@)) is None,
        },
{
    if args.len() == 0 {
        return None;
    }
    let first = &args[0];
    let n = first.as_str().unicode_len();
    let slash = find_char(first.as_str(), '/');
    proof {
        crate::text::lemma_find_bounds(first@, '/');
    }
    let guild: String = match slash {
        Some(i) => first.as_str().substring_char(0, i).to_owned(),
        None => first.clone(),
    };
    let channel: Option<String> = if args.len() >= 2 {
        Some(args[1].clone())
    } else {
        match slash {
            Some(i) => Some(first.as_str().substring_char(i + 1, n).to_owned()),
            None => None,
        }
    };
    match channel {
        Some(c) => {
            if guild.as_str().is_empty() || c.as_str().is_empty() {
                None
            } else {
                Some((guild, c))
            }
        },
        None => None,
    }
}

/// One custom-emoji mention found in a text.
#[derive(Debug, Clone, PartialEq, Eq)]
pub struct EmojiMention {
    pub name: String,
    pub id: String,
    pub animated: bool,
}

/// A message travelling between the two platforms, as record-keeping data.
#[derive(Debug, Clone, PartialEq, Eq)]
pub struct BridgeMessage {
    pub source_platform: String,
    pub target_platform: String,
    pub source_id: String,
    pub target_id: String,
    pub content: String,
    pub formatted_content: Option<String>,
    pub timestamp: String,
    pub attachments: Vec<String>,
}

/// Options of the HTML-to-markdown collaborator.
#[derive(Debug, Clone, PartialEq, Eq)]
pub struct HtmlToMarkdownConfig {
    pub preserve_links: bool,
    pub preserve_images: bool,
    pub code_block_style: String,
}

impl Default for HtmlToMarkdownConfig {
    fn default() -> (r: HtmlToMarkdownConfig)
        ensures
            r.preserve_links,
            r.preserve_images,
            r.code_block_style@ == "fenced"@,
    {
        HtmlToMarkdownConfig {
            preserve_links: true,
            preserve_images: true,
            code_block_style: "fenced".to_owned(),
        }
    }
}

/// The characters the markdown sanitizer escapes.
pub open spec fn is_markdown_special(c: char) -> bool {
    c == '*' || c == '_' || c == '~' || c == '`' || c == '|'
}

fn is_markdown_special_char(c: char) -> (r: bool)
    ensures
        r == is_markdown_special(c),
{
    c == '*' || c == '_' || c == '~' || c == '`' || c == '|'
}

/// The sanitized text: an existing escape pair passes through, any markdown
/// control character gains a backslash, everything else is untouched.
pub open spec fn spec_sanitize_markdown(s: Seq<char>) -> Seq<char>
    decreases s.len(),
{
    if s.len() == 0 {
        s
    } else if s[0] == '\\' && s.len() >= 2 {
        seq!['\\', s[1]] + spec_sanitize_markdown(s.subrange(2, s.len() as int))
    } else if is_markdown_special(s[0]) {
        seq!['\\', s[0]] + spec_sanitize_markdown(s.drop_first())
    } else {
        seq![s[0]] + spec_sanitize_markdown(s.drop_first())
    }
}

/// Pure text helpers of the message pipeline.
pub struct MessageUtils {
}

impl MessageUtils {
    /// Escapes markdown control characters, leaving existing escapes alone.
    pub fn sanitize_markdown(text: &str) -> (r: String)
        ensures
            r@ == spec_sanitize_markdown(text@),
    {
        let n = text.unicode_len();
        let mut out = String::new();
        let mut i: usize = 0;
        proof {
            assert(text@.subrange(0, n as int) =~= text@);
        }
        while i < n
            invariant
                i <= n,
                n == text@.len(),
                out@ + spec_sanitize_markdown(text@.subrange(i as int, n as int))
                    =~= spec_sanitize_markdown(text@),
            decreases n - i,
        {
            let ghost rest = text@.subrange(i as int, n as int);
            let c = text.get_char(i);
            proof {
                assert(rest[0] == c);
            }
            if c == '\\' && i + 1 < n {
                let next = text.get_char(i + 1);
                push_char(&mut out, c);
                push_char(&mut out, next);
                proof {
                    assert(rest[1] == next);
                    assert(rest.subrange(2, rest.len() as int) =~= text@.subrange(
                        i as int + 2,
                        n as int,
                    ));
                }
                i = i + 2;
            } else {
                if is_markdown_special_char(c) {
                    push_char(&mut out, '\\');
                }
                push_char(&mut out, c);
                proof {
                    assert(rest.drop_first() =~= text@.subrange(i as int + 1, n as int));
                    if c == '\\' {
                        assert(rest.len() < 2);
                        assert(seq![rest[0]] + rest.drop_first() =~= rest);
                    }
                }
                i = i + 1;
            }
        }
        proof {
            assert(text@.subrange(n as int, n as int) =~= Seq::<char>::empty());
        }
        out
    }

    /// Quotes the replied-to content line by line and prefixes the author.
    pub fn convert_matrix_reply_to_slack(body: &str, reply_content: &str, reply_author: &str) -> (r:
        String)
        ensures
            r@ == "**"@ + reply_author@ + "**:\n"@ + spec_join(
                spec_lines(reply_content@).map_values(|l: Seq<char>| "> "@ + l),
                "\n"@,
            ) + "\n\n"@ + body@,
    {
        let lines = split_lines(reply_content);
        let mut quoted: Vec<String> = Vec::new();
        let mut i: usize = 0;
        while i < lines.len()
            invariant
                i <= lines@.len(),
                lines@.map_values(|l: String| l@) == spec_lines(reply_content@),
                quoted@.map_values(|l: String| l@) =~= spec_lines(reply_content@).subrange(
                    0,
                    i as int,
                ).map_values(|l: Seq<char>| "> "@ + l),
            decreases lines@.len() - i,
        {
            let ghost prevq = quoted@;
            let mut line = "> ".to_owned();
            line.append(lines[i].as_str());
            quoted.push(line);
            proof {
                let f = |l: Seq<char>| "> "@ + l;
                let sl = spec_lines(reply_content@);
                assert(lines@.map_values(|l: String| l@)[i as int] == lines@[i as int]@);
                assert(sl[i as int] == lines@[i as int]@);
                assert(quoted@.last()@ == f(sl[i as int]));
                assert(sl.subrange(0, i as int + 1).map_values(f) =~= sl.subrange(
                    0,
                    i as int,
                ).map_values(f).push(f(sl[i as int])));
                assert(quoted@.map_values(|l: String| l@) =~= prevq.map_values(
                    |l: String| l@,
                ).push(f(sl[i as int])));
            }
            i = i + 1;
        }
        proof {
            assert(spec_lines(reply_content@).subrange(0, spec_lines(reply_content@).len() as int)
                =~= spec_lines(reply_content@));
        }
        let joined = join_strings(&quoted, "\n");
        let mut out = "**".to_owned();
        out.append(reply_author);
        out.append("**:\n");
        out.append(joined.as_str());
        out.append("\n\n");
        out.append(body);
        out
    }

    /// Doubles every backslash so the text survives the remote markup.
    pub fn escape_slack_special_chars(text: &str) -> (r: String)
        ensures
            r@ == spec_replace(text@, "\\"@, "\\\\"@),
    {
        proof {
            reveal_strlit("\\");
        }
        replace_all(text, "\\", "\\\\")
    }

    /// Deduplicates values, keeping the first occurrence of each and the
    /// order of first occurrences.
    pub fn extract_unique_values(items: Vec<String>) -> (r: Vec<String>)
        ensures
            forall|i: int, j: int| 0 <= i < j < r@.len() ==> r@[i]@ != r@[j]@,
            views_include(r@, items@),
            views_include(items@, r@),
    {
        let mut out: Vec<String> = Vec::new();
        let mut i: usize = 0;
        proof {
            assert(views_include(out@, items@));
            assert(views_include(items@.subrange(0, 0), out@));
        }
        while i < items.len()
            invariant
                i <= items@.len(),
                forall|a: int, b: int| 0 <= a < b < out@.len() ==> out@[a]@ != out@[b]@,
                views_include(out@, items@),
                views_include(items@.subrange(0, i as int), out@),
            decreases items@.len() - i,
        {
            let ghost seen_prefix = items@.subrange(0, i as int);
            let ghost out_before = out@;
            let seen = vec_contains_string(&out, items[i].as_str());
            if !seen {
                let ghost prev = out@;
                out.push(items[i].clone());
                proof {
                    assert(out@[prev.len() as int]@ == items@[i as int]@);
                    assert forall|a: int, b: int|
                        0 <= a < b < out@.len() implies out@[a]@ != out@[b]@ by {
                        if b < prev.len() {
                            assert(prev[a]@ != prev[b]@);
                        } else {
                            assert(out@[a] == prev[a]);
                            assert(prev[a]@ != items@[i as int]@);
                        }
                    }
                    assert forall|a: int| #![trigger out@[a]]
                        0 <= a < out@.len() implies exists|k: int|
                        0 <= k < items@.len() && (#[trigger] items@[k])@ == out@[a]@ by {
                        if a < prev.len() {
                            assert(out@[a] == prev[a]);
                            assert(exists|k: int|
                                0 <= k < items@.len() && (#[trigger] items@[k])@ == prev[a]@);
                        } else {
                            assert((items@[i as int])@ == out@[a]@);
                        }
                    }
                }
            }
            proof {
                let next_prefix = items@.subrange(0, i as int + 1);
                assert forall|a: int| #![trigger next_prefix[a]]
                    0 <= a < next_prefix.len() implies exists|k: int|
                    0 <= k < out@.len() && (#[trigger] out@[k])@ == next_prefix[a]@ by {
                    if a < i {
                        assert(next_prefix[a] == seen_prefix[a]);
                        let k0 = choose|k: int|
                            0 <= k < out_before.len() && (#[trigger] out_before[k])@
                                == seen_prefix[a]@;
                        assert(out@[k0] == out_before[k0]);
                    } else {
                        assert(next_prefix[a] == items@[i as int]);
                        assert(exists|k: int|
                            0 <= k < out@.len() && (#[trigger] out@[k])@ == items@[i as int]@);
                    }
                }
            }
            i = i + 1;
        }
        proof {
            assert(items@.subrange(0, items@.len() as int) =~= items@);
        }
        out
    }
}

/// Every element of `a` reads the same as some element of `b`.
pub open spec fn views_include(a: Seq<String>, b: Seq<String>) -> bool {
    forall|i: int| #![trigger a[i]]
        0 <= i < a.len() ==> exists|k: int| 0 <= k < b.len() && (#[trigger] b[k])@ == a[i]@
}

/// Whether any element of the vector reads the same as the text.
pub fn vec_contains_string(v: &Vec<String>, s: &str) -> (r: bool)
    ensures
        r == exists|a: int| 0 <= a < v@.len() && (#[trigger] v@[a])@ == s@,
{
    let mut j: usize = 0;
    while j < v.len()
        invariant
            j <= v@.len(),
            forall|a: int| 0 <= a < j ==> v@[a]@ != s@,
        decreases v@.len() - j,
    {
        if string_eq_str(&v[j], s) {
            proof {
                assert(v@[j as int]@ == s@);
            }
            return true;
        }
        j = j + 1;
    }
    false
}

/// A line ends at a newline; a carriage return just before it is dropped.
pub open spec fn strip_cr(l: Seq<char>) -> Seq<char> {
    if l.len() > 0 && l[l.len() - 1] == '\r' {
        l.drop_last()
    } else {
        l
    }
}

pub open spec fn spec_lines_acc(s: Seq<char>, cur: Seq<char>) -> Seq<Seq<char>>
    decreases s.len(),
{
    if s.len() == 0 {
        if cur.len() == 0 {
            Seq::empty()
        } else {
            seq![strip_cr(cur)]
        }
    } else if s[0] == '\n' {
        seq![strip_cr(cur)] + spec_lines_acc(s.drop_first(), Seq::empty())
    } else {
        spec_lines_acc(s.drop_first(), cur.push(s[0]))
    }
}

/// The lines of a text: split at newlines, a final newline closing the last
/// line rather than opening an empty one.
pub open spec fn spec_lines(s: Seq<char>) -> Seq<Seq<char>> {
    spec_lines_acc(s, Seq::empty())
}

/// Splits a text into lines.
pub fn split_lines(s: &str) -> (r: Vec<String>)
    ensures
        r@.map_values(|l: String| l@) == spec_lines(s@),
{
    let n = s.unicode_len();
    let mut out: Vec<String> = Vec::new();
    let mut cur: String = String::new();
    let mut i: usize = 0;
    proof {
        assert(s@.subrange(0, n as int) =~= s@);
    }
    while i < n
        invariant
            i <= n,
            n == s@.len(),
            out@.map_values(|l: String| l@) + spec_lines_acc(s@.subrange(i as int, n as int), cur@)
                =~= spec_lines(s@),
        decreases n - i,
    {
        let ghost prev_rest = s@.subrange(i as int, n as int);
        let ghost prev_out = out@;
        let ghost prev_cur = cur@;
        let c = s.get_char(i);
        proof {
            assert(prev_rest[0] == c);
            assert(prev_rest.drop_first() =~= s@.subrange(i as int + 1, n as int));
        }
        if c == '\n' {
            let line = finish_line(cur);
            cur = String::new();
            out.push(line);
            proof {
                assert(spec_lines_acc(prev_rest, prev_cur) == seq![strip_cr(prev_cur)]
                    + spec_lines_acc(prev_rest.drop_first(), Seq::<char>::empty()));
                assert(out@.map_values(|l: String| l@) =~= prev_out.map_values(
                    |l: String| l@,
                ).push(strip_cr(prev_cur)));
            }
        } else {
            push_char(&mut cur, c);
        }
        i = i + 1;
    }
    proof {
        assert(s@.subrange(n as int, n as int) =~= Seq::<char>::empty());
    }
    if cur.as_str().unicode_len() > 0 {
        let ghost prev_out = out@;
        let ghost prev_cur = cur@;
        let line = finish_line(cur);
        out.push(line);
        proof {
            assert(out@.map_values(|l: String| l@) =~= prev_out.map_values(|l: String| l@).push(
                strip_cr(prev_cur),
            ));
        }
    }
    out
}

fn finish_line(cur: String) -> (r: String)
    ensures
        r@ == strip_cr(cur@),
{
    let n = cur.as_str().unicode_len();
    if n > 0 && cur.as_str().get_char(n - 1) == '\r' {
        let head = cur.as_str().substring_char(0, n - 1);
        let out = head.to_owned();
        proof {
            assert(out@ =~= cur@.drop_last());
        }
        out
    } else {
        cur
    }
}

} // verus!

//! `lapidary register` and `lapidary unregister`: the XDG handler that sends `lapidary://` links
//! to `lapidary open`. This is the text the two write; finding the directories, writing the
//! files and running `xdg-mime` is the desktop binary's.

use vstd::prelude::*;
use crate::text::{
    chars_of, debug_quoted, debug_text, drop_trailing, has_suffix, joined, pieces, push_all,
    push_char, same_chars, split_pieces, trim_end, trimmed_end_len,
};

verus! {

/// The handler's file name, which `xdg-mime` records as the default for [`SCHEME`].
pub const ENTRY: &'static str = "lapidary-url.desktop";

/// The scheme the handler is for.
pub const SCHEME: &'static str = "x-scheme-handler/lapidary";

/// Marks a desktop file as one `register` wrote, so `unregister` never removes somebody else's.
pub const MARKER: &'static str = "X-Lapidary-Handler=1";

/// The line of `mimeapps.list` that makes the handler the default for the scheme.
pub const DEFAULT_LINE: &'static str = "x-scheme-handler/lapidary=lapidary-url.desktop";

/// What follows a refused argument's quoted value.
pub const UNPLAIN: &'static str = " holds a character a desktop launcher could split or misread (anything but \
     letters, digits and / . _ - : = @ + ,). Use a server address, workspace and install \
     path without spaces or symbols, then register again.";

/// What follows an install path holding `=`, quoted.
pub const HOLDS_EQUALS: &'static str = " holds `=`, which `env` would read as a variable rather than as this program. Move lapidary to a path without one, then register again.";

/// The desktop file, up to its `Exec` line's value.
pub const ENTRY_HEAD: &'static str = "[Desktop Entry]\nType=Application\nName=Lapidary link handler\nExec=";

/// The desktop file, after its `Exec` line's value.
pub const ENTRY_TAIL: &'static str = "\nMimeType=x-scheme-handler/lapidary;\nNoDisplay=true\nTerminal=false\nX-Lapidary-Handler=1\n";

/// A character an `Exec` argument may hold as it is: ASCII letters and digits, and
/// `/ . _ - : = @ + ,`.
pub open spec fn is_plain(c: char) -> bool {
    ||| 'a' <= c <= 'z'
    ||| 'A' <= c <= 'Z'
    ||| '0' <= c <= '9'
    ||| c == '/' || c == '.' || c == '_' || c == '-' || c == ':' || c == '=' || c == '@' || c == '+'
        || c == ','
}

/// One `Exec` argument, written as it is, or refused with what to change: anything that would
/// need quoting is refused, because `xdg-open`'s own launcher splits `Exec` on spaces and keeps
/// the quotes.
pub open spec fn argument_text(value: Seq<char>) -> Result<Seq<char>, Seq<char>> {
    if value.len() > 0 && forall|i: int| 0 <= i < value.len() ==> is_plain(#[trigger] value[i]) {
        Ok(value)
    } else {
        Err(debug_quoted(value) + UNPLAIN@)
    }
}

/// The `Exec` line's value: `env`, the server and the workspace as variables, this binary, and
/// `open %u`; or the first argument refused.
pub open spec fn exec_text(binary: Seq<char>, server: Seq<char>, workspace: Seq<char>) -> Result<Seq<char>, Seq<char>> {
    match argument_text("LAPIDARY_SERVER="@ + server) {
        Err(e) => Err(e),
        Ok(a) => match argument_text("LAPIDARY_WORKSPACE="@ + workspace) {
            Err(e) => Err(e),
            Ok(b) => match argument_text(binary) {
                Err(e) => Err(e),
                Ok(c) => Ok("env "@ + a + " "@ + b + " "@ + c + " open %u"@),
            },
        },
    }
}

/// The desktop file: the server and workspace ride in `Exec`, since a handler a browser starts
/// does not see the shell's environment and a link must never choose either. An install path
/// holding `=` is refused first, since `env` would read it as a variable.
pub open spec fn entry_text(binary: Seq<char>, server: Seq<char>, workspace: Seq<char>) -> Result<Seq<char>, Seq<char>> {
    if binary.contains('=') {
        Err(debug_quoted(binary) + HOLDS_EQUALS@)
    } else {
        match exec_text(binary, server, workspace) {
            Err(e) => Err(e),
            Ok(exec) => Ok(ENTRY_HEAD@ + exec + ENTRY_TAIL@),
        }
    }
}

fn plain(c: char) -> (b: bool)
    ensures
        b == is_plain(c),
{
    ('a' <= c && c <= 'z') || ('A' <= c && c <= 'Z') || ('0' <= c && c <= '9') || c == '/' || c
        == '.' || c == '_' || c == '-' || c == ':' || c == '=' || c == '@' || c == '+' || c == ','
}

/// One `Exec` argument, written as it is, or refused.
pub fn argument(value: &str) -> (r: Result<String, String>)
    ensures
        match r {
            Ok(s) => argument_text(value@) == Ok::<Seq<char>, Seq<char>>(s@),
            Err(e) => argument_text(value@) == Err::<Seq<char>, Seq<char>>(e@),
        },
{
    let v = chars_of(value);
    let mut ok = v.len() > 0;
    let mut i: usize = 0;
    while i < v.len()
        invariant
            i <= v@.len(),
            v@ == value@,
            ok == (v@.len() > 0 && forall|k: int| 0 <= k < i ==> is_plain(#[trigger] v@[k])),
        decreases v@.len() - i,
    {
        if !plain(v[i]) {
            ok = false;
        }
        i = i + 1;
    }
    if ok {
        let mut s = String::new();
        push_all(&mut s, value);
        Ok(s)
    } else {
        let mut e = debug_text(value);
        push_all(&mut e, UNPLAIN);
        Err(e)
    }
}

/// `prefix` followed by `rest`, as a new string.
fn concat(prefix: &str, rest: &str) -> (s: String)
    ensures
        s@ == prefix@ + rest@,
{
    let mut s = String::new();
    push_all(&mut s, prefix);
    push_all(&mut s, rest);
    s
}

/// The desktop file that makes `binary open` the handler, with the server and workspace it was
/// registered with; or why none can be written.
pub fn entry(binary: &str, server: &str, workspace: &str) -> (r: Result<String, String>)
    ensures
        match r {
            Ok(s) => entry_text(binary@, server@, workspace@) == Ok::<Seq<char>, Seq<char>>(s@),
            Err(e) => entry_text(binary@, server@, workspace@) == Err::<Seq<char>, Seq<char>>(e@),
        },
{
    let b = chars_of(binary);
    let mut has_equals = false;
    let mut i: usize = 0;
    while i < b.len()
        invariant
            i <= b@.len(),
            b@ == binary@,
            has_equals == exists|k: int| 0 <= k < i && b@[k] == '=',
        decreases b@.len() - i,
    {
        if b[i] == '=' {
            has_equals = true;
        }
        i = i + 1;
    }
    proof {
        if binary@.contains('=') {
            let k = choose|k: int| 0 <= k < binary@.len() && binary@[k] == '=';
            assert(b@[k] == '=');
        }
    }
    if has_equals {
        let mut e = debug_text(binary);
        push_all(&mut e, HOLDS_EQUALS);
        return Err(e);
    }
    let server_arg = concat("LAPIDARY_SERVER=", server);
    let a = match argument(server_arg.as_str()) {
        Ok(a) => a,
        Err(e) => return Err(e),
    };
    let workspace_arg = concat("LAPIDARY_WORKSPACE=", workspace);
    let w = match argument(workspace_arg.as_str()) {
        Ok(w) => w,
        Err(e) => return Err(e),
    };
    let c = match argument(binary) {
        Ok(c) => c,
        Err(e) => return Err(e),
    };
    let mut s = String::new();
    push_all(&mut s, ENTRY_HEAD);
    push_all(&mut s, "env ");
    push_all(&mut s, a.as_str());
    push_all(&mut s, " ");
    push_all(&mut s, w.as_str());
    push_all(&mut s, " ");
    push_all(&mut s, c.as_str());
    push_all(&mut s, " open %u");
    push_all(&mut s, ENTRY_TAIL);
    proof {
        assert(s@ =~= ENTRY_HEAD@ + ("env "@ + a@ + " "@ + w@ + " "@ + c@ + " open %u"@) + ENTRY_TAIL@);
    }
    Ok(s)
}

/// A line as `str::lines` hands it out: without the `\r` of a `\r\n` ending.
pub open spec fn without_cr(line: Seq<char>) -> Seq<char> {
    if line.len() > 0 && line.last() == '\r' {
        line.drop_last()
    } else {
        line
    }
}

/// `str::lines`: the lines between `\n`s, each ended one without a trailing `\r`, and the last
/// only when something follows the final `\n`.
pub open spec fn lines_of(s: Seq<char>) -> Seq<Seq<char>> {
    let p = pieces(s, '\n');
    let n = p.len() - 1;
    Seq::new(n as nat, |i: int| without_cr(p[i])) + (if p[n].len() > 0 {
        seq![p[n]]
    } else {
        seq![]
    })
}

/// Whether a line is the default `register` set, once trailing white space and `;`s are
/// dropped.
pub open spec fn is_default_line(line: Seq<char>) -> bool {
    drop_trailing(trim_end(line), ';') == DEFAULT_LINE@
}

/// The lines that are not the default `register` set, in order.
pub open spec fn other_lines(lines: Seq<Seq<char>>) -> Seq<Seq<char>>
    decreases lines.len(),
{
    if lines.len() == 0 {
        seq![]
    } else {
        other_lines(lines.drop_last()) + (if is_default_line(lines.last()) {
            seq![]
        } else {
            seq![lines.last()]
        })
    }
}

/// `mimeapps.list` without the default `register` set, every other line as it was: joined with
/// `\n`, and ended with one when the list was and something is left.
pub open spec fn without_default_text(mimeapps: Seq<char>) -> Seq<char> {
    let kept = joined(other_lines(lines_of(mimeapps)), seq!['\n']);
    if has_suffix(mimeapps, seq!['\n']) && kept.len() > 0 {
        kept.push('\n')
    } else {
        kept
    }
}

/// `mimeapps.list` without the default `register` set.
pub fn without_default(mimeapps: &str) -> (r: String)
    ensures
        r@ == without_default_text(mimeapps@),
{
    let v = chars_of(mimeapps);
    let ps = split_pieces(&v, '\n');
    let ours = chars_of(DEFAULT_LINE);
    let ghost pv = ps@.map_values(|p: Vec<char>| p@);
    let ghost lines = lines_of(mimeapps@);
    proof {
        crate::text::lemma_pieces_nonempty(v@, '\n');
    }
    let n = ps.len() - 1;
    let mut out = String::new();
    let mut count: usize = 0;
    let mut i: usize = 0;
    while i < ps.len()
        invariant
            i <= ps@.len(),
            pv == ps@.map_values(|p: Vec<char>| p@),
            pv == pieces(v@, '\n'),
            v@ == mimeapps@,
            ours@ == DEFAULT_LINE@,
            n == ps@.len() - 1,
            lines == lines_of(mimeapps@),
            count <= i,
            out@ == joined(other_lines(lines.take(if i <= n { i as int } else { lines.len() as int })), seq!['\n']),
            count == other_lines(lines.take(if i <= n { i as int } else { lines.len() as int })).len(),
        decreases ps@.len() - i,
    {
        let piece = &ps[i];
        let present = i < n || piece.len() > 0;
        if present {
            let mut line: Vec<char> = Vec::new();
            let mut len = piece.len();
            if i < n && len > 0 && piece[len - 1] == '\r' {
                len = len - 1;
            }
            let mut q: usize = 0;
            while q < len
                invariant
                    q <= len <= piece@.len(),
                    line@ == piece@.take(q as int),
                decreases len - q,
            {
                line.push(piece[q]);
                assert(line@ =~= piece@.take(q + 1));
                q = q + 1;
            }
            let ghost lv = line@;
            proof {
                assert(pv[i as int] == piece@);
                if i < n {
                    assert(lines[i as int] == without_cr(piece@));
                    assert(lv =~= without_cr(piece@));
                } else {
                    assert(lines.len() == n + 1);
                    assert(lines[n as int] == piece@);
                    assert(lv =~= piece@);
                }
                assert(lines.take(i + 1).drop_last() =~= lines.take(i as int));
                assert(lines.take(i + 1).last() == lv);
            }
            let end = trimmed_end_len(&line, ';');
            let mut head: Vec<char> = Vec::new();
            let mut h: usize = 0;
            while h < end
                invariant
                    h <= end <= line@.len(),
                    head@ == line@.take(h as int),
                decreases end - h,
            {
                head.push(line[h]);
                assert(head@ =~= line@.take(h + 1));
                h = h + 1;
            }
            let is_default = same_chars(&head, &ours);
            let ghost before = out@;
            if !is_default {
                if count > 0 {
                    push_char(&mut out, '\n');
                }
                let mut q: usize = 0;
                while q < line.len()
                    invariant
                        q <= line@.len(),
                        out@ == (if count > 0 { before + seq!['\n'] } else { before }) + line@.take(q as int),
                    decreases line@.len() - q,
                {
                    push_char(&mut out, line[q]);
                    assert(line@.take(q + 1) =~= line@.take(q as int).push(line@[q as int]));
                    q = q + 1;
                }
                assert(line@.take(line@.len() as int) =~= line@);
                count = count + 1;
            }
            proof {
                assert(head@ =~= line@.take(end as int));
                let prior = other_lines(lines.take(i as int));
                if !is_default {
                    assert(other_lines(lines.take(i + 1)) =~= prior.push(lv));
                    if prior.len() == 0 {
                        assert(out@ =~= lv);
                    } else {
                        assert(prior.push(lv).drop_last() =~= prior);
                        assert(out@ =~= joined(prior, seq!['\n']) + seq!['\n'] + lv);
                    }
                } else {
                    assert(other_lines(lines.take(i + 1)) =~= prior);
                }
            }
        } else {
            proof {
                assert(i == n);
                assert(pv[n as int] == piece@);
                assert(lines.len() == n);
                assert(lines.take(n as int) =~= lines);
            }
        }
        i = i + 1;
    }
    proof {
        assert(lines.take(lines.len() as int) =~= lines);
    }
    let ends = v.len() > 0 && v[v.len() - 1] == '\n';
    proof {
        if has_suffix(mimeapps@, seq!['\n']) {
            assert(v@.skip(v@.len() - 1)[0] == v@[v@.len() - 1]);
        }
        if ends {
            assert(v@.skip(v@.len() - 1) =~= seq!['\n']);
        }
    }
    if ends && !out.as_str().is_empty() {
        push_char(&mut out, '\n');
    }
    out
}

/// An XDG base directory: the variable's value when it is set and not empty, else `fallback`
/// under the home directory; `Err` names the variable when neither is there.
pub open spec fn xdg_dir_of(
    variable: Seq<char>,
    value: Option<Seq<char>>,
    home: Option<Seq<char>>,
    fallback: Seq<char>,
) -> Result<Seq<char>, Seq<char>> {
    match value {
        Some(v) if v.len() > 0 => Ok(v),
        _ => match home {
            Some(h) => Ok(h + "/"@ + fallback),
            None => Err("neither "@ + variable + " nor HOME is set, so there is nowhere for the handler; set "@ + variable),
        },
    }
}

/// Where an XDG base directory is, from the variable's value and `$HOME` as the environment
/// holds them.
pub fn xdg_dir(variable: &str, value: Option<&str>, home: Option<&str>, fallback: &str) -> (r: Result<String, String>)
    ensures
        match xdg_dir_of(variable@, crate::fields::opt_view(value), crate::fields::opt_view(home), fallback@) {
            Ok(d) => r matches Ok(s) && s@ == d,
            Err(m) => r matches Err(e) && e@ == m,
        },
{
    if let Some(v) = value {
        if !v.is_empty() {
            return Ok(v.to_owned());
        }
    }
    match home {
        Some(h) => {
            let mut d = h.to_owned();
            push_all(&mut d, "/");
            push_all(&mut d, fallback);
            Ok(d)
        },
        None => {
            let mut m = "neither ".to_owned();
            push_all(&mut m, variable);
            push_all(&mut m, " nor HOME is set, so there is nowhere for the handler; set ");
            push_all(&mut m, variable);
            Err(m)
        },
    }
}

/// Whether `piece`, its trailing `\r` dropped when `strip_cr`, is `target`.
fn line_is(piece: &Vec<char>, strip_cr: bool, target: &Vec<char>) -> (b: bool)
    ensures
        b == ((if strip_cr { without_cr(piece@) } else { piece@ }) == target@),
{
    let mut len = piece.len();
    if strip_cr && len > 0 && piece[len - 1] == '\r' {
        len = len - 1;
    }
    let ghost line = if strip_cr { without_cr(piece@) } else { piece@ };
    assert(line =~= piece@.take(len as int));
    if len != target.len() {
        return false;
    }
    let mut i: usize = 0;
    while i < len
        invariant
            i <= len <= piece@.len(),
            len == target@.len(),
            line == piece@.take(len as int),
            forall|k: int| 0 <= k < i ==> piece@[k] == target@[k],
        decreases len - i,
    {
        if piece[i] != target[i] {
            assert(line[i as int] != target@[i as int]);
            return false;
        }
        i = i + 1;
    }
    assert(line =~= target@);
    true
}

/// Whether a desktop file holds the [`MARKER`] line, which says `register` wrote it.
pub open spec fn marked(text: Seq<char>) -> bool {
    lines_of(text).contains(MARKER@)
}

/// Whether the desktop file at the handler's path, if there is one, was written by somebody else:
/// it is there and holds no [`MARKER`] line. `register` leaves such a file alone, and so does
/// `unregister`.
pub fn foreign_entry(existing: Option<&str>) -> (b: bool)
    ensures
        b == (existing matches Some(t) && !marked(t@)),
{
    match existing {
        None => false,
        Some(text) => !holds_marker(text),
    }
}

/// Whether `text` holds the [`MARKER`] line.
pub fn holds_marker(text: &str) -> (b: bool)
    ensures
        b == marked(text@),
{
    let v = chars_of(text);
    let ps = split_pieces(&v, '\n');
    let marker = chars_of(MARKER);
    let ghost pv = ps@.map_values(|p: Vec<char>| p@);
    proof {
        crate::text::lemma_pieces_nonempty(v@, '\n');
    }
    let n = ps.len() - 1;
    let ghost lines = lines_of(text@);
    assert(pv == pieces(v@, '\n'));
    let mut i: usize = 0;
    while i < ps.len()
        invariant
            i <= ps@.len(),
            n == ps@.len() - 1,
            pv == ps@.map_values(|p: Vec<char>| p@),
            pv == pieces(text@, '\n'),
            marker@ == MARKER@,
            lines == lines_of(text@),
            forall|k: int| 0 <= k < i && k < n ==> lines[k] != MARKER@,
            i > n ==> (lines.len() > n ==> lines[n as int] != MARKER@),
            lines.len() == n || lines.len() == n + 1,
        decreases ps@.len() - i,
    {
        let hit = line_is(&ps[i], i < n, &marker);
        proof {
            assert(pv[i as int] == ps@[i as int]@);
            if i < n {
                assert(lines[i as int] == without_cr(pv[i as int]));
            } else if lines.len() > n {
                assert(lines[n as int] == pv[n as int]);
            }
        }
        if hit {
            proof {
                if i < n {
                    assert(lines[i as int] == MARKER@);
                } else {
                    reveal_strlit("X-Lapidary-Handler=1");
                    assert(pv[n as int].len() > 0);
                    assert(lines[n as int] == MARKER@);
                }
            }
            return true;
        }
        i = i + 1;
    }
    proof {
        if lines.contains(MARKER@) {
            let k = choose|k: int| 0 <= k < lines.len() && lines[k] == MARKER@;
            assert(k < n || k == n);
        }
    }
    false
}

} // verus!

//! The brain-dump capture flow: the operator's consent, the capture buffer's
//! boilerplate, stripping the boilerplate comments back out, deciding whether
//! anything was captured, numbering the persisted notes, and resolving the
//! editor command.  Launching the editor and touching files is the caller's
//! work.

use vstd::prelude::*;
use vstd::string::*;
use crate::text::{
    ends_with, join_lines, spec_dec, spec_ends_with, spec_join_lines, spec_lines,
    spec_starts_with, spec_trim, spec_words, spec_zero_pad, split_lines, split_words, starts_with,
    trim, u64_to_string_padded,
};

verus! {

/// The heading the capture buffer is seeded with.
pub fn capture_heading() -> (r: &'static str)
    ensures
        r@ == "# Brain Dump"@,
{
    "# Brain Dump"
}

/// The boilerplate the capture buffer is seeded with: the heading and two
/// HTML-comment instruction lines.
pub fn capture_template() -> (r: &'static str)
    ensures
        r@
            == "# Brain Dump\n\n<!-- Paste or write your context below. Save and close when done. -->\n<!-- Delete all content (including these comments) to skip. -->\n\n"@,
{
    "# Brain Dump\n\n<!-- Paste or write your context below. Save and close when done. -->\n<!-- Delete all content (including these comments) to skip. -->\n\n"
}

/// Consent to capture: the trimmed answer is `y` or `yes`, in any ASCII
/// case.
pub open spec fn spec_consent(s: Seq<char>) -> bool {
    let t = spec_trim(s);
    ||| t == "y"@
    ||| t == "Y"@
    ||| t == "yes"@
    ||| t == "yeS"@
    ||| t == "yEs"@
    ||| t == "yES"@
    ||| t == "Yes"@
    ||| t == "YeS"@
    ||| t == "YEs"@
    ||| t == "YES"@
}

/// Whether the operator's answer consents to the capture.
pub fn consent_given(answer: &str) -> (r: bool)
    ensures
        r == spec_consent(answer@),
{
    let t = trim(answer);
    t == String::from_str("y") || t == String::from_str("Y") || t == String::from_str("yes") || t
        == String::from_str("yeS") || t == String::from_str("yEs") || t == String::from_str("yES")
        || t == String::from_str("Yes") || t == String::from_str("YeS") || t == String::from_str(
        "YEs",
    ) || t == String::from_str("YES")
}

/// A line that is, after trimming, one whole HTML comment.
pub open spec fn spec_is_comment_line(l: Seq<char>) -> bool {
    spec_starts_with(spec_trim(l), "<!--"@) && spec_ends_with(spec_trim(l), "-->"@)
}

/// Whether the line is, after trimming, one whole HTML comment.
pub fn is_comment_line(line: &str) -> (r: bool)
    ensures
        r == spec_is_comment_line(line@),
{
    let t = trim(line);
    starts_with(t.as_str(), "<!--") && ends_with(t.as_str(), "-->")
}

/// The lines of the capture that are not whole HTML comments.
pub open spec fn spec_kept_lines(ls: Seq<Seq<char>>) -> Seq<Seq<char>> {
    ls.filter(|l: Seq<char>| !spec_is_comment_line(l))
}

/// The capture's remaining text: comment lines dropped, the rest rejoined
/// and trimmed.
pub open spec fn spec_stripped(s: Seq<char>) -> Seq<char> {
    spec_trim(spec_join_lines(spec_kept_lines(spec_lines(s))))
}

/// Strips the boilerplate comment lines out of a capture and trims the rest.
pub fn strip_capture(content: &str) -> (r: String)
    ensures
        r@ == spec_stripped(content@),
{
    let lines = split_lines(content);
    let n = lines.len();
    let mut kept: Vec<String> = Vec::new();
    let mut i: usize = 0;
    proof {
        reveal(Seq::filter);
        assert(lines.deep_view().take(0) =~= Seq::<Seq<char>>::empty());
        assert(kept.deep_view() =~= Seq::<Seq<char>>::empty());
        assert(spec_kept_lines(lines.deep_view().take(0)) =~= Seq::<Seq<char>>::empty());
    }
    while i < n
        invariant
            0 <= i <= n,
            n == lines@.len(),
            lines.deep_view().len() == n,
            kept.deep_view() == spec_kept_lines(lines.deep_view().take(i as int)),
        decreases n - i,
    {
        proof {
            reveal(Seq::filter);
            let lv = lines.deep_view();
            assert(lv.take(i + 1 as int).drop_last() =~= lv.take(i as int));
            assert(lv.take(i + 1 as int).last() == lv[i as int]);
            assert(lv[i as int] == lines@[i as int]@);
            assert(spec_kept_lines(lv.take(i + 1 as int)) == if !spec_is_comment_line(
                lv[i as int],
            ) {
                spec_kept_lines(lv.take(i as int)).push(lv[i as int])
            } else {
                spec_kept_lines(lv.take(i as int))
            });
        }
        if !is_comment_line(lines[i].as_str()) {
            let ghost old_kept = kept.deep_view();
            let line = lines[i].clone();
            let ghost lval = line@;
            kept.push(line);
            proof {
                assert(kept.deep_view() =~= old_kept.push(lval));
            }
        }
        i = i + 1;
    }
    proof {
        assert(lines.deep_view().take(n as int) =~= lines.deep_view());
    }
    let joined = join_lines(&kept);
    trim(joined.as_str())
}

/// A capture is discarded when its stripped text is empty or is only the
/// bare heading.
pub open spec fn spec_capture_discarded(raw: Seq<char>) -> bool {
    spec_stripped(raw).len() == 0 || spec_stripped(raw) == "# Brain Dump"@
}

/// The note body a capture yields: its stripped text — or nothing, exactly
/// when the stripped text is empty or only the bare heading.  Only a `Some`
/// result is ever persisted.
pub fn capture_note_body(raw: &str) -> (r: Option<String>)
    ensures
        (r matches Some(b) ==> b@ == spec_stripped(raw@)),
        (r is None) == spec_capture_discarded(raw@),
{
    let stripped = strip_capture(raw);
    if stripped.as_str().unicode_len() == 0 {
        return Option::None;
    }
    if stripped == String::from_str("# Brain Dump") {
        return Option::None;
    }
    Option::Some(stripped)
}

/// A decimal digit.
pub open spec fn spec_is_digit(c: char) -> bool {
    48 <= c as int <= 57
}

/// The value of a decimal digit character.
pub open spec fn spec_digit_val(c: char) -> int {
    c as int - 48
}

/// The sequence number a note filename carries: the name must start with
/// `brain-dump-`, end with `.md`, and hold three digits right after the
/// prefix.
pub open spec fn spec_name_number(name: Seq<char>) -> Option<int> {
    if spec_starts_with(name, "brain-dump-"@) && spec_ends_with(name, ".md"@) && name.len() >= 14
        && spec_is_digit(name[11]) && spec_is_digit(name[12]) && spec_is_digit(name[13]) {
        Option::Some(
            100 * spec_digit_val(name[11]) + 10 * spec_digit_val(name[12]) + spec_digit_val(
                name[13],
            ),
        )
    } else {
        Option::None
    }
}

/// Reads the sequence number out of one note filename, if it carries one.
pub fn name_number(name: &str) -> (r: Option<u32>)
    ensures
        match r {
            Option::Some(v) => spec_name_number(name@) == Option::Some(v as int) && v <= 999,
            Option::None => spec_name_number(name@) is None,
        },
{
    if !starts_with(name, "brain-dump-") {
        return Option::None;
    }
    if !ends_with(name, ".md") {
        return Option::None;
    }
    let n = name.unicode_len();
    if n < 14 {
        return Option::None;
    }
    let c1 = name.get_char(11) as u32;
    let c2 = name.get_char(12) as u32;
    let c3 = name.get_char(13) as u32;
    if c1 < 48 || c1 > 57 || c2 < 48 || c2 > 57 || c3 < 48 || c3 > 57 {
        return Option::None;
    }
    let v = 100 * (c1 - 48) + 10 * (c2 - 48) + (c3 - 48);
    Option::Some(v)
}

/// The largest sequence number any of the filenames carries, `0` if none.
pub open spec fn spec_max_number(names: Seq<Seq<char>>) -> int
    decreases names.len(),
{
    if names.len() == 0 {
        0
    } else {
        let rest = spec_max_number(names.drop_last());
        match spec_name_number(names.last()) {
            Option::Some(v) => if v > rest {
                v
            } else {
                rest
            },
            Option::None => rest,
        }
    }
}

/// The next sequence number: one past the largest in use, `1` if none is.
pub open spec fn spec_next_number(names: Seq<Seq<char>>) -> int {
    spec_max_number(names) + 1
}

/// Allocates the next note sequence number from the existing filenames.
pub fn next_brain_dump_number(names: &Vec<String>) -> (r: u32)
    ensures
        r == spec_next_number(names.deep_view()),
        1 <= r <= 1000,
{
    let n = names.len();
    let mut max: u32 = 0;
    let mut i: usize = 0;
    proof {
        assert(names.deep_view().take(0) =~= Seq::<Seq<char>>::empty());
    }
    while i < n
        invariant
            0 <= i <= n,
            n == names@.len(),
            names.deep_view().len() == n,
            max <= 999,
            max == spec_max_number(names.deep_view().take(i as int)),
        decreases n - i,
    {
        proof {
            let nv = names.deep_view();
            assert(nv.take(i + 1 as int).drop_last() =~= nv.take(i as int));
            assert(nv.take(i + 1 as int).last() == nv[i as int]);
            assert(nv[i as int] == names@[i as int]@);
        }
        match name_number(names[i].as_str()) {
            Option::Some(v) => {
                if v > max {
                    max = v;
                }
            },
            Option::None => {},
        }
        i = i + 1;
    }
    proof {
        assert(names.deep_view().take(n as int) =~= names.deep_view());
    }
    max + 1
}

/// The allocated number is strictly greater than every number in use, so a
/// newly persisted note never collides with an existing one and the
/// numbering grows monotonically.
pub proof fn lemma_next_number_fresh(names: Seq<Seq<char>>, i: int)
    requires
        0 <= i < names.len(),
        spec_name_number(names[i]) is Some,
    ensures
        spec_next_number(names) > spec_name_number(names[i]).unwrap(),
    decreases names.len(),
{
    if i == names.len() - 1 {
    } else {
        lemma_next_number_fresh(names.drop_last(), i);
        assert(names.drop_last()[i] == names[i]);
    }
}

/// The directory the notes are persisted under.
pub fn notes_dir() -> (r: &'static str)
    ensures
        r@ == "docs"@,
{
    "docs"
}

/// `docs/brain-dump-NNN-date.md`, the sequence number three digits wide.
pub open spec fn spec_brain_dump_filename(n: int, date: Seq<char>) -> Seq<char> {
    "docs/brain-dump-"@ + spec_zero_pad(spec_dec(n), 3) + seq!['-'] + date + ".md"@
}

/// Builds a note's path from its sequence number and capture date.
pub fn brain_dump_filename(n: u32, date: &str) -> (r: String)
    ensures
        r@ == spec_brain_dump_filename(n as int, date@),
{
    let mut r = String::from_str("docs/brain-dump-");
    let num = u64_to_string_padded(n as u64, 3);
    r = r.concat(num.as_str());
    r = r.concat("-");
    r = r.concat(date);
    r = r.concat(".md");
    proof {
        reveal_strlit("-");
        assert(r@ =~= spec_brain_dump_filename(n as int, date@));
    }
    r
}

/// A persisted note: a heading restating the sequence number, the capture
/// date, a rule, then the body.
pub open spec fn spec_note_content(n: int, date: Seq<char>, body: Seq<char>) -> Seq<char> {
    "# Brain Dump #"@ + spec_zero_pad(spec_dec(n), 3) + "\n\nCaptured: "@ + date + "\n\n---\n\n"@
        + body + "\n"@
}

/// Builds a note's full content.
pub fn note_content(n: u32, date: &str, body: &str) -> (r: String)
    ensures
        r@ == spec_note_content(n as int, date@, body@),
{
    let mut r = String::from_str("# Brain Dump #");
    let num = u64_to_string_padded(n as u64, 3);
    r = r.concat(num.as_str());
    r = r.concat("\n\nCaptured: ");
    r = r.concat(date);
    r = r.concat("\n\n---\n\n");
    r = r.concat(body);
    r = r.concat("\n");
    proof {
        assert(r@ =~= spec_note_content(n as int, date@, body@));
    }
    r
}

/// The editor launch string: `EDITOR`, then `VISUAL`, then the first
/// available probed editor, ending in `vi`, assumed always present.
pub open spec fn spec_resolve_editor(
    editor: Option<Seq<char>>,
    visual: Option<Seq<char>>,
    code_ok: bool,
    nano_ok: bool,
    vim_ok: bool,
) -> Seq<char> {
    match editor {
        Option::Some(e) => e,
        Option::None => match visual {
            Option::Some(v) => v,
            Option::None => if code_ok {
                "code --wait"@
            } else if nano_ok {
                "nano"@
            } else if vim_ok {
                "vim"@
            } else {
                "vi"@
            },
        },
    }
}

/// Resolves the editor launch string from the environment values and the
/// probe results.
pub fn resolve_editor(
    editor: &Option<String>,
    visual: &Option<String>,
    code_ok: bool,
    nano_ok: bool,
    vim_ok: bool,
) -> (r: String)
    ensures
        r@ == spec_resolve_editor(
            match editor {
                Option::Some(e) => Option::Some(e@),
                Option::None => Option::None,
            },
            match visual {
                Option::Some(v) => Option::Some(v@),
                Option::None => Option::None,
            },
            code_ok,
            nano_ok,
            vim_ok,
        ),
{
    match editor {
        Option::Some(e) => e.clone(),
        Option::None => match visual {
            Option::Some(v) => v.clone(),
            Option::None => {
                if code_ok {
                    String::from_str("code --wait")
                } else if nano_ok {
                    String::from_str("nano")
                } else if vim_ok {
                    String::from_str("vim")
                } else {
                    String::from_str("vi")
                }
            },
        },
    }
}

/// The editor binaries probed, in priority order, when neither environment
/// value is set (the baseline `vi` is not probed: it is assumed present).
pub fn editor_probe_order() -> (r: Vec<String>)
    ensures
        r.deep_view() == seq!["code"@, "nano"@, "vim"@],
{
    let mut r: Vec<String> = Vec::new();
    r.push(String::from_str("code"));
    r.push(String::from_str("nano"));
    r.push(String::from_str("vim"));
    proof {
        assert(r.deep_view() =~= seq!["code"@, "nano"@, "vim"@]);
    }
    r
}

/// Splits an editor launch string into the command and its arguments; an
/// all-whitespace string falls back to `vi` with no arguments.
pub fn editor_command(s: &str) -> (r: (String, Vec<String>))
    ensures
        spec_words(s@).len() == 0 ==> r.0@ == "vi"@ && r.1.deep_view() == Seq::<Seq<char>>::empty(),
        spec_words(s@).len() > 0 ==> r.0@ == spec_words(s@)[0] && r.1.deep_view() == spec_words(
            s@,
        ).drop_first(),
{
    let words = split_words(s);
    if words.len() == 0 {
        let empty_args: Vec<String> = Vec::new();
        proof {
            assert(empty_args.deep_view() =~= Seq::<Seq<char>>::empty());
        }
        return (String::from_str("vi"), empty_args);
    }
    let cmd = words[0].clone();
    let n = words.len();
    let mut args: Vec<String> = Vec::new();
    let mut i: usize = 1;
    proof {
        assert(args.deep_view() =~= words.deep_view().subrange(1, 1));
    }
    while i < n
        invariant
            1 <= i <= n,
            n == words@.len(),
            words.deep_view().len() == n,
            args.deep_view() == words.deep_view().subrange(1, i as int),
        decreases n - i,
    {
        proof {
            let wv = words.deep_view();
            assert(wv.subrange(1, i + 1 as int) =~= wv.subrange(1, i as int).push(wv[i as int]));
            assert(wv[i as int] == words@[i as int]@);
        }
        let ghost old_args = args.deep_view();
        let w = words[i].clone();
        let ghost wval = w@;
        args.push(w);
        proof {
            assert(args.deep_view() =~= old_args.push(wval));
        }
        i = i + 1;
    }
    proof {
        assert(words.deep_view().subrange(1, n as int) =~= words.deep_view().drop_first());
    }
    (cmd, args)
}

} // verus!

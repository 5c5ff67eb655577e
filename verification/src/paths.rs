use vstd::prelude::*;
use vstd::utf8::encode_utf8;
use crate::scan::push_char;
use crate::text::{chars_of, same_text};

verus! {

/// The text without the occurrences of `pat`, found from the left, none overlapping
/// another.
pub open spec fn without(s: Seq<char>, pat: Seq<char>) -> Seq<char>
    decreases s.len(),
{
    if pat.len() == 0 || s.len() < pat.len() {
        s
    } else if s.take(pat.len() as int) == pat {
        without(s.skip(pat.len() as int), pat)
    } else {
        seq![s[0]] + without(s.skip(1), pat)
    }
}

/// Whether `tail` closes `s`.
pub open spec fn closes(s: Seq<char>, tail: Seq<char>) -> bool {
    tail.len() <= s.len() && s.skip(s.len() - tail.len()) == tail
}

/// A backslash and the letter `r`, as they stand in a path that was typed with its
/// line end written out.
pub open spec fn typed_cr() -> Seq<char> {
    seq!['\\', 'r']
}

/// A backslash and the letter `n`.
pub open spec fn typed_lf() -> Seq<char> {
    seq!['\\', 'n']
}

/// A path as typed, cleaned of line ends: where it closes with a typed carriage
/// return and line feed, all real ones go; where it then closes with a typed carriage
/// return, all typed ones go; where it then still closes with a typed line feed, all
/// typed ones go.
pub open spec fn stripped(input: Seq<char>) -> Seq<char> {
    let first = if closes(input, typed_cr() + typed_lf()) {
        without(input, seq!['\r', '\n'])
    } else {
        input
    };
    let second = if closes(input, typed_cr()) {
        without(first, typed_cr())
    } else {
        first
    };
    if closes(input, typed_lf()) {
        without(second, typed_lf())
    } else {
        second
    }
}

/// Whether the characters of `pat` stand in `s` from `at` on.
fn stands_at(s: &Vec<char>, pat: &Vec<char>, at: usize) -> (r: bool)
    requires
        at <= s.len(),
    ensures
        r == (pat.len() <= s.len() - at && s@.skip(at as int).take(pat.len() as int) == pat@),
{
    if pat.len() > s.len() - at {
        return false;
    }
    let ghost rest = s@.skip(at as int);
    let mut i: usize = 0;
    while i < pat.len() && s[at + i] == pat[i]
        invariant
            at + pat.len() <= s.len(),
            rest == s@.skip(at as int),
            i <= pat.len(),
            rest.take(i as int) == pat@.take(i as int),
        decreases pat.len() - i,
    {
        i = i + 1;
        assert(rest.take(i as int) =~= rest.take(i - 1).push(s@[at + i - 1]));
        assert(pat@.take(i as int) =~= pat@.take(i - 1).push(pat@[i - 1]));
    }
    proof {
        if i == pat.len() {
            assert(pat@.take(i as int) =~= pat@);
        } else {
            assert(rest.take(pat.len() as int)[i as int] == s@[at + i]);
        }
    }
    i == pat.len()
}

/// Takes all occurrences of `pat` out of `s`.
pub fn remove_all(s: &Vec<char>, pat: &Vec<char>) -> (r: Vec<char>)
    ensures
        r@ == without(s@, pat@),
{
    let mut r: Vec<char> = Vec::new();
    let mut i: usize = 0;
    assert(s@.skip(0) =~= s@);
    assert(r@ + without(s@.skip(0), pat@) =~= without(s@, pat@));
    while i < s.len()
        invariant
            i <= s.len(),
            r@ + without(s@.skip(i as int), pat@) == without(s@, pat@),
        decreases s.len() - i,
    {
        let ghost rest = s@.skip(i as int);
        if pat.len() > 0 && stands_at(s, pat, i) {
            assert(rest.skip(pat.len() as int) =~= s@.skip(i + pat.len()));
            i = i + pat.len();
        } else {
            let ghost before = r@;
            r.push(s[i]);
            proof {
                assert(rest.skip(1) =~= s@.skip(i + 1));
                if pat.len() == 0 || rest.len() < pat.len() {
                    lemma_without_short(rest, pat@);
                    lemma_without_short(rest.skip(1), pat@);
                    assert(rest =~= seq![rest[0]] + rest.skip(1));
                }
                assert(r@ + without(s@.skip(i + 1), pat@) =~= before + (seq![rest[0]] + without(
                    rest.skip(1),
                    pat@,
                )));
            }
            i = i + 1;
        }
    }
    assert(s@.skip(i as int) =~= Seq::<char>::empty());
    assert(r@ + Seq::<char>::empty() =~= r@);
    r
}

/// A text shorter than the pattern, or any text under the empty pattern, stays as it is.
proof fn lemma_without_short(s: Seq<char>, pat: Seq<char>)
    requires
        pat.len() == 0 || s.len() < pat.len(),
    ensures
        without(s, pat) == s,
{
}

/// Whether `tail` closes `s`.
fn ends_with(s: &Vec<char>, tail: &Vec<char>) -> (r: bool)
    ensures
        r == closes(s@, tail@),
{
    if tail.len() > s.len() {
        return false;
    }
    let r = stands_at(s, tail, s.len() - tail.len());
    proof {
        let rest = s@.skip(s.len() - tail.len());
        assert(rest.take(tail.len() as int) =~= rest);
    }
    r
}

/// Cleans a path as typed of line ends.
pub fn strip_input(input: &str) -> (r: String)
    ensures
        r@ == stripped(input@),
{
    let s = chars_of(input);
    let typed_cr: Vec<char> = vec!['\\', 'r'];
    let typed_lf: Vec<char> = vec!['\\', 'n'];
    let typed_both: Vec<char> = vec!['\\', 'r', '\\', 'n'];
    let real_both: Vec<char> = vec!['\r', '\n'];
    proof {
        assert(typed_cr@ =~= self::typed_cr());
        assert(typed_lf@ =~= self::typed_lf());
        assert(typed_both@ =~= self::typed_cr() + self::typed_lf());
        assert(real_both@ =~= seq!['\r', '\n']);
    }
    let first = if ends_with(&s, &typed_both) {
        remove_all(&s, &real_both)
    } else {
        s.clone()
    };
    let second = if ends_with(&s, &typed_cr) {
        remove_all(&first, &typed_cr)
    } else {
        first
    };
    let third = if ends_with(&s, &typed_lf) {
        remove_all(&second, &typed_lf)
    } else {
        second
    };
    let mut r = String::new();
    let mut i: usize = 0;
    while i < third.len()
        invariant
            i <= third.len(),
            r@ == third@.take(i as int),
        decreases third.len() - i,
    {
        push_char(&mut r, third[i]);
        i = i + 1;
        assert(r@ =~= third@.take(i as int));
    }
    assert(third@.take(i as int) =~= third@);
    r
}

/// As many hyphens as asked for.
pub open spec fn hyphens(n: nat) -> Seq<char> {
    Seq::new(n, |i: int| '-')
}

/// The notice that is shown before the process stops: the level, a rule of hyphens
/// as wide as the message has bytes, and the message.
pub open spec fn exit_notice(log_level: Seq<char>, msg: Seq<char>) -> Seq<char> {
    "\n    (?) "@ + log_level + " | Process Exiting Due To:\n    "@ + hyphens(
        encode_utf8(msg).len(),
    ) + "\n    "@ + msg + "\n    "@
}

/// Writes the notice that is shown before the process stops.
pub fn exit_message(log_level: &str, msg: &str) -> (r: String)
    ensures
        r@ == exit_notice(log_level@, msg@),
{
    let mut r = "\n    (?) ".to_owned();
    r.append(log_level);
    r.append(" | Process Exiting Due To:\n    ");
    let ghost head = r@;
    let width = msg.as_bytes().len();
    assert(width == encode_utf8(msg@).len());
    let mut i: usize = 0;
    assert(hyphens(0) =~= Seq::<char>::empty());
    assert(head + hyphens(0) =~= head);
    while i < width
        invariant
            i <= width,
            r@ == head + hyphens(i as nat),
        decreases width - i,
    {
        push_char(&mut r, '-');
        i = i + 1;
        assert(r@ =~= head + hyphens(i as nat));
    }
    r.append("\n    ");
    r.append(msg);
    r.append("\n    ");
    assert(r@ =~= exit_notice(log_level@, msg@));
    r
}

/// How a file is opened under a mode.
#[derive(Clone, Copy, Debug, PartialEq, Eq, Structural)]
pub struct OpenMode {
    pub read: bool,
    pub write: bool,
    pub create: bool,
    pub append: bool,
    /// Whether the file must be there already, and be no folder.
    pub must_exist: bool,
}

/// How a file is opened under each of the modes `r`, `rw`, `crw`, `cra` and `crt`;
/// `None` for anything else.
pub open spec fn mode_of(mode: Seq<char>) -> Option<OpenMode> {
    if mode == "r"@ {
        Some(OpenMode { read: true, write: false, create: false, append: false, must_exist: true })
    } else if mode == "rw"@ {
        Some(OpenMode { read: true, write: true, create: false, append: false, must_exist: true })
    } else if mode == "crw"@ {
        Some(
            OpenMode { read: false, write: true, create: true, append: false, must_exist: false },
        )
    } else if mode == "cra"@ {
        Some(OpenMode { read: false, write: true, create: false, append: true, must_exist: true })
    } else if mode == "crt"@ {
        Some(
            OpenMode { read: false, write: true, create: false, append: false, must_exist: true },
        )
    } else {
        None
    }
}

/// How a file is opened under a mode; `None` for a mode that is not known.
pub fn open_mode(mode: &str) -> (r: Option<OpenMode>)
    ensures
        r == mode_of(mode@),
{
    if same_text(mode, "r") {
        Some(OpenMode { read: true, write: false, create: false, append: false, must_exist: true })
    } else if same_text(mode, "rw") {
        Some(OpenMode { read: true, write: true, create: false, append: false, must_exist: true })
    } else if same_text(mode, "crw") {
        Some(
            OpenMode { read: false, write: true, create: true, append: false, must_exist: false },
        )
    } else if same_text(mode, "cra") {
        Some(OpenMode { read: false, write: true, create: false, append: true, must_exist: true })
    } else if same_text(mode, "crt") {
        Some(
            OpenMode { read: false, write: true, create: false, append: false, must_exist: true },
        )
    } else {
        None
    }
}

/// The folder of the assistant under a home folder, or a subfolder of it.
pub open spec fn folder_under(home: Seq<char>, subfolder: Option<Seq<char>>) -> Seq<char> {
    match subfolder {
        Some(sub) => home + "/.mitre-assistant/"@ + sub,
        None => home + "/.mitre-assistant"@,
    }
}

/// The text of an optional string slice.
pub open spec fn named_slice(v: Option<&str>) -> Option<Seq<char>> {
    match v {
        Some(s) => Some(s@),
        None => None,
    }
}

/// The path of the folder of the assistant under a home folder, or of a subfolder of it.
pub fn config_folder(home: &str, subfolder: Option<&str>) -> (r: String)
    ensures
        r@ == folder_under(home@, named_slice(subfolder)),
{
    let mut r = home.to_owned();
    match subfolder {
        Some(sub) => {
            r.append("/.mitre-assistant/");
            r.append(sub);
        },
        None => {
            r.append("/.mitre-assistant");
        },
    }
    r
}

/// The path of a file in a subfolder of the folder of the assistant.
pub fn config_path(home: &str, subfolder: &str, resource: &str) -> (r: String)
    ensures
        r@ == folder_under(home@, Some(subfolder@)) + "/"@ + resource@,
{
    let mut r = config_folder(home, Some(subfolder));
    r.append("/");
    r.append(resource);
    r
}

} // verus!

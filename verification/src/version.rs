//! The version that the programs report.

use vstd::prelude::*;
use vstd::string::*;
use vstd::utf8::*;

use crate::encoding::utf8_text;
use crate::text::{
    chars_of, concat2, concat4, contains_char, list2, push_text, trim, trimmed,
};

verus! {

/// The version with the revision of a fork behind it: build metadata that is there already is
/// continued, and otherwise begun.
pub open spec fn cli_version(package_version: Seq<char>, revision: Option<Seq<char>>) -> Seq<char> {
    match revision {
        None => package_version,
        Some(revision) => package_version + (if package_version.contains('+') {
            "."@
        } else {
            "+"@
        }) + "fork."@ + revision,
    }
}

/// The version of the package, with the revision of the fork where there is one.
pub fn format_cli_version(package_version: &str, revision: Option<&str>) -> (version: String)
    ensures
        version@ == cli_version(
            package_version@,
            match revision {
                Some(revision) => Some(revision@),
                None => None,
            },
        ),
{
    match revision {
        None => package_version.to_owned(),
        Some(revision) => {
            let separator: &str = if contains_char(package_version, '+') {
                "."
            } else {
                "+"
            };
            concat4(package_version, separator, "fork.", revision)
        },
    }
}

/// What a git command that ended says on its output: the text without the white space around it,
/// where the command had success, the bytes are text and some is left.
pub open spec fn output_value(success: bool, stdout: Seq<u8>) -> Option<Seq<char>> {
    if success && valid_utf8(stdout) && trimmed(decode_utf8(stdout)).len() > 0 {
        Some(trimmed(decode_utf8(stdout)))
    } else {
        None
    }
}

/// The value that a git command wrote.
pub fn git_output(success: bool, stdout: Vec<u8>) -> (value: Option<String>)
    ensures
        value.deep_view() == output_value(success, stdout@),
{
    if !success {
        return None;
    }
    match utf8_text(stdout) {
        None => None,
        Some(text) => {
            let value: String = trim(text.as_str());
            if value.as_str().is_empty() {
                None
            } else {
                Some(value)
            }
        },
    }
}

/// A hexadecimal digit.
pub open spec fn is_hex_digit(c: char) -> bool {
    ||| '0' <= c <= '9'
    ||| 'a' <= c <= 'f'
    ||| 'A' <= c <= 'F'
}

fn hex_digit(c: char) -> (is: bool)
    ensures
        is == is_hex_digit(c),
{
    ('0' <= c && c <= '9') || ('a' <= c && c <= 'f') || ('A' <= c && c <= 'F')
}

/// How many digits of a commit a version names.
pub const REVISION_DIGITS: usize = 12;

/// The short name of a commit: its first digits. A text that does not begin with as many is no
/// commit.
pub open spec fn short_revision(commit: Seq<char>) -> Option<Seq<char>> {
    if commit.len() >= REVISION_DIGITS && forall|i: int|
        0 <= i < REVISION_DIGITS ==> is_hex_digit(#[trigger] commit[i]) {
        Some(commit.take(REVISION_DIGITS as int))
    } else {
        None
    }
}

fn revision_of(commit: &str) -> (revision: Option<String>)
    ensures
        revision.deep_view() == short_revision(commit@),
{
    let chars: Vec<char> = chars_of(commit);
    if chars.len() < REVISION_DIGITS {
        return None;
    }
    let mut i: usize = 0;
    while i < REVISION_DIGITS
        invariant
            i <= REVISION_DIGITS <= chars.len(),
            chars@ == commit@,
            forall|j: int| 0 <= j < i ==> is_hex_digit(#[trigger] commit@[j]),
        decreases REVISION_DIGITS - i,
    {
        if !hex_digit(chars[i]) {
            assert(!is_hex_digit(commit@[i as int]));
            return None;
        }
        i += 1;
    }
    let revision: String = commit.substring_char(0, REVISION_DIGITS).to_owned();
    assert(revision@ =~= commit@.take(REVISION_DIGITS as int));
    Some(revision)
}

/// The version that a build at a commit reports, behind the name of the product.
pub open spec fn product_text(package_version: Seq<char>, head: Option<Seq<char>>) -> Seq<char> {
    "codex-cli "@ + cli_version(
        package_version,
        match head {
            Some(head) => short_revision(head),
            None => None,
        },
    )
}

/// The version that a build at the commit `head` reports.
pub fn product_version(package_version: &str, head: Option<&str>) -> (version: String)
    ensures
        version@ == product_text(
            package_version@,
            match head {
                Some(head) => Some(head@),
                None => None,
            },
        ),
{
    let revision: Option<String> = match head {
        Some(head) => revision_of(head),
        None => None,
    };
    let version: String = match &revision {
        Some(revision) => format_cli_version(package_version, Some(revision.as_str())),
        None => format_cli_version(package_version, None),
    };
    concat2("codex-cli ", version.as_str())
}

/// What the build is told: the version to build in, and what makes it stale.
pub open spec fn build_lines(
    head: Option<Seq<char>>,
    package_version: Seq<char>,
    head_path: Option<Seq<char>>,
    head_ref_path: Option<Seq<char>>,
    on_mac: bool,
) -> Seq<Seq<char>> {
    let first = seq![
        "cargo:rustc-env=CODEX_CLI_VERSION="@ + product_text(package_version, head),
        "cargo:rerun-if-changed=build.rs"@,
    ];
    let with_head = match head_path {
        Some(path) => first.push("cargo:rerun-if-changed="@ + path),
        None => first,
    };
    let with_ref = match head_ref_path {
        Some(path) => with_head.push("cargo:rerun-if-changed="@ + path),
        None => with_head,
    };
    if on_mac {
        with_ref.push("cargo:rustc-link-arg=-ObjC"@)
    } else {
        with_ref
    }
}

/// The lines that tell the build its version: that of the package, and the commit at `head` where
/// there is one. `head_path` and `head_ref_path` are the files that change with the commit.
pub fn build_directives(
    head: Option<String>,
    package_version: &str,
    head_path: Option<String>,
    head_ref_path: Option<String>,
    on_mac: bool,
) -> (lines: Vec<String>)
    ensures
        lines.deep_view() == build_lines(
            head.deep_view(),
            package_version@,
            head_path.deep_view(),
            head_ref_path.deep_view(),
            on_mac,
        ),
{
    let version: String = match &head {
        Some(head) => product_version(package_version, Some(head.as_str())),
        None => product_version(package_version, None),
    };
    let mut lines: Vec<String> = list2(
        concat2("cargo:rustc-env=CODEX_CLI_VERSION=", version.as_str()).as_str(),
        "cargo:rerun-if-changed=build.rs",
    );
    if let Some(path) = head_path {
        push_text(&mut lines, concat2("cargo:rerun-if-changed=", path.as_str()));
    }
    if let Some(path) = head_ref_path {
        push_text(&mut lines, concat2("cargo:rerun-if-changed=", path.as_str()));
    }
    if on_mac {
        push_text(&mut lines, "cargo:rustc-link-arg=-ObjC".to_owned());
    }
    lines
}

/// A version that names a commit names it by exactly as many hexadecimal digits as it should, behind
/// the word that marks a fork.
pub proof fn lemma_a_version_names_a_short_revision(package_version: Seq<char>, commit: Seq<char>)
    ensures
        match short_revision(commit) {
            Some(revision) => {
                &&& revision.len() == REVISION_DIGITS
                &&& forall|i: int| 0 <= i < revision.len() ==> is_hex_digit(#[trigger] revision[i])
                &&& exists|before: Seq<char>|
                    product_text(package_version, Some(commit)) == #[trigger] (before + "fork."@)
                        + revision
            },
            None => product_text(package_version, Some(commit)) == "codex-cli "@ + package_version,
        },
{
    if let Some(revision) = short_revision(commit) {
        let separator = if package_version.contains('+') {
            "."@
        } else {
            "+"@
        };
        let before = "codex-cli "@ + (package_version + separator);
        assert(product_text(package_version, Some(commit)) =~= (before + "fork."@) + revision);
    }
}

/// A version begins with that of the package. The revision comes behind it as build metadata: after
/// a plus, and after a dot where the package has a plus already; without a revision nothing does.
pub proof fn lemma_a_version_begins_with_the_package(
    package_version: Seq<char>,
    revision: Seq<char>,
)
    ensures
        cli_version(package_version, None) == package_version,
        !package_version.contains('+') ==> cli_version(package_version, Some(revision))
            == package_version + seq!['+', 'f', 'o', 'r', 'k', '.'] + revision,
        package_version.contains('+') ==> cli_version(package_version, Some(revision))
            == package_version + seq!['.', 'f', 'o', 'r', 'k', '.'] + revision,
{
    reveal_strlit(".");
    reveal_strlit("+");
    reveal_strlit("fork.");
    assert("+"@ + "fork."@ =~= seq!['+', 'f', 'o', 'r', 'k', '.']);
    assert("."@ + "fork."@ =~= seq!['.', 'f', 'o', 'r', 'k', '.']);
    let version = cli_version(package_version, Some(revision));
    if package_version.contains('+') {
        assert(version =~= package_version + ("."@ + "fork."@) + revision);
    } else {
        assert(version =~= package_version + ("+"@ + "fork."@) + revision);
    }
}

/// The output of a command is a value exactly where it succeeded with a text that is not blank: the
/// text without the blanks around it.
pub proof fn lemma_blank_output_is_no_value(success: bool, stdout: Seq<u8>)
    ensures
        output_value(success, stdout) is Some <==> success && valid_utf8(stdout)
            && !crate::text::is_blank(decode_utf8(stdout)),
        output_value(success, stdout) matches Some(value) ==> value == trimmed(decode_utf8(stdout)),
{
    let text = decode_utf8(stdout);
    crate::text::lemma_trimming_takes_off_the_blanks(text);
    let (before, after) = choose|before: Seq<char>, after: Seq<char>|
        crate::text::is_blank(before) && crate::text::is_blank(after) && text == #[trigger] (before
            + trimmed(text) + after);
    let whole = before + trimmed(text) + after;
    if trimmed(text).len() == 0 {
        assert forall|i: int| 0 <= i < text.len() implies crate::text::is_white_space(
            #[trigger] text[i],
        ) by {
            if i < before.len() {
                assert(whole[i] == before[i]);
            } else {
                assert(whole[i] == after[i - before.len()]);
            }
        }
    } else {
        assert(whole[before.len() as int] == trimmed(text)[0]);
        assert(!crate::text::is_white_space(text[before.len() as int]));
    }
}

/// The short revision of a commit is its first twelve characters, where these are hexadecimal
/// digits; and nothing else is one.
pub proof fn lemma_a_short_revision_begins_the_commit(commit: Seq<char>)
    ensures
        short_revision(commit) is Some <==> commit.len() >= 12 && forall|i: int|
            0 <= i < 12 ==> ('0' <= #[trigger] commit[i] <= '9' || 'a' <= commit[i] <= 'f' || 'A'
                <= commit[i] <= 'F'),
        short_revision(commit) matches Some(revision) ==> revision == commit.take(12),
{
}

/// A build is told the version of the product, to look again when the build script or one of the
/// files that say what is checked out changes, and on macOS how to link; nothing else.
pub proof fn lemma_a_build_watches_what_is_checked_out(
    head: Option<Seq<char>>,
    package_version: Seq<char>,
    head_path: Seq<char>,
    head_ref_path: Seq<char>,
)
    ensures
        build_lines(head, package_version, None, None, false) == seq![
            "cargo:rustc-env=CODEX_CLI_VERSION="@ + product_text(package_version, head),
            "cargo:rerun-if-changed=build.rs"@,
        ],
        build_lines(head, package_version, Some(head_path), None, false) == build_lines(
            head,
            package_version,
            None,
            None,
            false,
        ).push("cargo:rerun-if-changed="@ + head_path),
        build_lines(head, package_version, None, Some(head_ref_path), false) == build_lines(
            head,
            package_version,
            None,
            None,
            false,
        ).push("cargo:rerun-if-changed="@ + head_ref_path),
        build_lines(head, package_version, Some(head_path), Some(head_ref_path), false)
            == build_lines(head, package_version, Some(head_path), None, false).push(
            "cargo:rerun-if-changed="@ + head_ref_path,
        ),
        forall|path: Option<Seq<char>>, ref_path: Option<Seq<char>>| #[trigger]
            build_lines(head, package_version, path, ref_path, true) == build_lines(
                head,
                package_version,
                path,
                ref_path,
                false,
            ).push("cargo:rustc-link-arg=-ObjC"@),
        product_text(package_version, None) == "codex-cli "@ + package_version,
        product_text(package_version, head) == "codex-cli "@ + cli_version(
            package_version,
            match head {
                Some(commit) => short_revision(commit),
                None => None,
            },
        ),
{
}

} // verus!

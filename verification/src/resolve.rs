//! Classification of link targets and their resolution to paths.

use vstd::prelude::*;
use vstd::string::*;
use crate::disk::{canonical_on, present_on, DiskSnapshot, DiskView};
use crate::link::{BrokenLink, BrokenLinkView, LinkView, MarkdownLink};
use crate::paths::{join, joined_path, optional_view, parent, parent_path};
use crate::text::starts_with;

verus! {

/// A target is external when it begins with `http://` or `https://`;
/// every other target is internal.
pub open spec fn is_external_target(target: Seq<char>) -> bool {
    "http://"@.is_prefix_of(target) || "https://"@.is_prefix_of(target)
}

/// Whether a target begins with a slash, which anchors it at the base path.
pub open spec fn is_rooted_target(target: Seq<char>) -> bool {
    target.len() > 0 && target[0] == '/'
}

/// The directory that a target without a leading slash is relative to: the
/// directory of the document that holds the link, or the base path where the
/// document has no directory.
pub open spec fn anchor_of(base: Seq<char>, document: Seq<char>) -> Seq<char> {
    match parent_path(document) {
        Some(dir) => dir,
        None => base,
    }
}

/// The path that an internal target is joined to, before the disk is asked:
/// a target with a leading slash goes below the base path without that
/// slash, any other below the directory of its document.
pub open spec fn joined_target(base: Seq<char>, document: Seq<char>, target: Seq<char>) -> Seq<
    char,
> {
    if is_rooted_target(target) {
        joined_path(base, target.subrange(1, target.len() as int))
    } else {
        joined_path(anchor_of(base, document), target)
    }
}

/// The path that a joined target resolves to: its canonical form where the
/// disk gives one, else the joined path itself.
pub open spec fn resolved_path(disk: DiskView, joined: Seq<char>) -> Seq<char> {
    match canonical_on(disk, joined) {
        Some(canonical) => canonical,
        None => joined,
    }
}

/// The reason given for a link whose resolved path does not exist.
pub open spec fn missing_reason(resolved: Seq<char>) -> Seq<char> {
    "File not found: "@ + resolved
}

/// What the disk says of a link whose target was joined to `joined`: the
/// broken-link record where the resolved path does not exist.
pub open spec fn verdict(disk: DiskView, link: LinkView, joined: Seq<char>) -> Option<
    BrokenLinkView,
> {
    let resolved = resolved_path(disk, joined);
    if present_on(disk, resolved) {
        None
    } else {
        Some(BrokenLinkView { link, reason: missing_reason(resolved) })
    }
}

/// The broken-link record of a link of `document`, if the link is broken:
/// it is internal and its resolved path does not exist.
pub open spec fn broken_link(
    disk: DiskView,
    base: Seq<char>,
    document: Seq<char>,
    link: LinkView,
) -> Option<BrokenLinkView> {
    if is_external_target(link.target) {
        None
    } else {
        verdict(disk, link, joined_target(base, document, link.target))
    }
}

/// The document that a link of `document` refers to, as far as the disk
/// knows it: the canonical form of the joined target of an internal link.
pub open spec fn reference_of(
    disk: DiskView,
    base: Seq<char>,
    document: Seq<char>,
    link: LinkView,
) -> Option<Seq<char>> {
    if is_external_target(link.target) {
        None
    } else {
        canonical_on(disk, joined_target(base, document, link.target))
    }
}

/// The path that the disk has to be asked about for a link of `document`:
/// the joined target of an internal link.
pub open spec fn joined_of(base: Seq<char>, document: Seq<char>, link: LinkView) -> Option<
    Seq<char>,
> {
    if is_external_target(link.target) {
        None
    } else {
        Some(joined_target(base, document, link.target))
    }
}

/// View of an optional broken-link record.
pub open spec fn optional_broken_view(broken: Option<BrokenLink>) -> Option<BrokenLinkView> {
    match broken {
        Some(b) => Some(b@),
        None => None,
    }
}

/// Whether `target` is external.
pub fn is_external(target: &str) -> (external: bool)
    ensures
        external == is_external_target(target@),
{
    starts_with(target, "http://") || starts_with(target, "https://")
}

/// The target without its leading slash, where it has one.
pub fn strip_root(target: &str) -> (rest: Option<String>)
    ensures
        match rest {
            Some(r) => is_rooted_target(target@) && r@ == target@.subrange(
                1,
                target@.len() as int,
            ),
            None => !is_rooted_target(target@),
        },
{
    proof {
        reveal_strlit("/");
    }
    if starts_with(target, "/") {
        let length = target.unicode_len();
        assert("/"@.len() == 1 && "/"@[0] == '/');
        assert(target@.subrange(0, 1)[0] == target@[0]);
        Some(String::from_str(target.substring_char(1, length)))
    } else {
        assert("/"@.len() == 1 && "/"@[0] == '/');
        assert(is_rooted_target(target@) ==> "/"@ =~= target@.subrange(0, 1));
        None
    }
}

/// Joins a target to the directory that it is relative to.
pub fn join_target(base: &str, document: &str, target: &str) -> (joined: String)
    ensures
        joined@ == joined_target(base@, document@, target@),
{
    match strip_root(target) {
        Some(rest) => join(base, rest.as_str()),
        None => match parent(document) {
            Some(dir) => join(dir.as_str(), target),
            None => join(base, target),
        },
    }
}

/// Asks the snapshot about a link whose target was joined to `joined`, and
/// reports the link as broken where the resolved path does not exist.
pub fn check_joined(disk: &DiskSnapshot, link: &MarkdownLink, joined: String) -> (broken: Option<
    BrokenLink,
>)
    ensures
        optional_broken_view(broken) == verdict(disk@, link@, joined@),
{
    let resolved = match disk.canonical(joined.as_str()) {
        Some(canonical) => canonical,
        None => joined,
    };
    if disk.is_present(resolved.as_str()) {
        None
    } else {
        let reason = String::from_str("File not found: ").concat(resolved.as_str());
        Some(BrokenLink { link: link.duplicate(), reason })
    }
}

/// Checks one link of `document`: an external link is never broken, an
/// internal one is broken when its resolved path does not exist.
pub fn check_link(disk: &DiskSnapshot, base: &str, document: &str, link: &MarkdownLink) -> (broken:
    Option<BrokenLink>)
    ensures
        optional_broken_view(broken) == broken_link(disk@, base@, document@, link@),
{
    if is_external(link.target.as_str()) {
        None
    } else {
        check_joined(disk, link, join_target(base, document, link.target.as_str()))
    }
}

/// The document that a link of `document` refers to, as far as the snapshot
/// knows it.
pub fn reference_target(disk: &DiskSnapshot, base: &str, document: &str, link: &MarkdownLink) -> (target:
    Option<String>)
    ensures
        optional_view(target) == reference_of(disk@, base@, document@, link@),
{
    if is_external(link.target.as_str()) {
        None
    } else {
        let joined = join_target(base, document, link.target.as_str());
        disk.canonical(joined.as_str())
    }
}

/// The path that the disk has to be asked about for a link of `document`.
pub fn joined_path_of(base: &str, document: &str, link: &MarkdownLink) -> (joined: Option<String>)
    ensures
        optional_view(joined) == joined_of(base@, document@, link@),
{
    if is_external(link.target.as_str()) {
        None
    } else {
        Some(join_target(base, document, link.target.as_str()))
    }
}

} // verus!

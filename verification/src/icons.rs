//! Marks of the places that skills come from; in words where no patched font is at hand.

use crate::model::{Icons, Source};
use crate::text::{
    after_last, before_first, cat3, chars_of, cut, head_before, said, slice_of, split_once,
    tail_after,
};
use vstd::prelude::*;

verus! {

pub open spec fn ascii_lower(c: char) -> char {
    if 'A' <= c <= 'Z' {
        (c as u8 + 32) as char
    } else {
        c
    }
}

fn lower_ascii(c: char) -> (r: char)
    ensures
        r == ascii_lower(c),
{
    if 'A' <= c && c <= 'Z' {
        (c as u8 + 32) as char
    } else {
        c
    }
}

/// The same text, but for the case of ASCII letters.
pub open spec fn same_but_case(a: Seq<char>, b: Seq<char>) -> bool {
    a.len() == b.len() && forall|i: int|
        0 <= i < a.len() ==> ascii_lower(#[trigger] a[i]) == ascii_lower(b[i])
}

fn eq_ignore_ascii_case(a: &str, b: &str) -> (r: bool)
    ensures
        r == same_but_case(a@, b@),
{
    let x = chars_of(a);
    let y = chars_of(b);
    if x.len() != y.len() {
        return false;
    }
    let mut i: usize = 0;
    while i < x.len()
        invariant
            i <= x.len(),
            x.len() == y.len(),
            x@ == a@,
            y@ == b@,
            forall|k: int| 0 <= k < i ==> ascii_lower(#[trigger] a@[k]) == ascii_lower(b@[k]),
        decreases x.len() - i,
    {
        if lower_ascii(x[i]) != lower_ascii(y[i]) {
            assert(ascii_lower(a@[i as int]) != ascii_lower(b@[i as int]));
            return false;
        }
        i = i + 1;
    }
    true
}

/// The host that a repository address names: of a URL the authority without user and port,
/// else what stands between the user and the first colon.
pub open spec fn host_of(url: Seq<char>) -> Option<Seq<char>> {
    match cut(url, "://"@) {
        Some((scheme, rest)) => Some(
            before_first(after_last(before_first(rest, '/'), '@'), ':'),
        ),
        None => match cut(url, ":"@) {
            Some((host, path)) => Some(after_last(host, '@')),
            None => None,
        },
    }
}

/// The address is one at GitHub.
pub open spec fn is_github(url: Seq<char>) -> bool {
    host_of(url) is Some && same_but_case(host_of(url)->0, "github.com"@)
}

pub fn github(url: &str) -> (r: bool)
    ensures
        r == is_github(url@),
{
    let host = match split_once(url, "://") {
        Some((_, rest)) => {
            let authority = head_before(rest.as_str(), '/');
            let address = tail_after(authority.as_str(), '@');
            head_before(address.as_str(), ':')
        },
        None => match split_once(url, ":") {
            Some((host, _)) => tail_after(host.as_str(), '@'),
            None => {
                return false;
            },
        },
    };
    eq_ignore_ascii_case(host.as_str(), "github.com")
}

pub open spec fn git_mark(mode: Icons, url: Seq<char>) -> Seq<char> {
    match (mode, is_github(url)) {
        (Icons::Nerd, true) => "󰊤"@,
        (Icons::Nerd, false) => "󰊢"@,
        (Icons::Text, true) => "github"@,
        (Icons::Text, false) => "git"@,
    }
}

pub fn git(mode: Icons, url: &str) -> (r: &'static str)
    ensures
        r@ == git_mark(mode, url@),
{
    match (mode, github(url)) {
        (Icons::Nerd, true) => "󰊤",
        (Icons::Nerd, false) => "󰊢",
        (Icons::Text, true) => "github",
        (Icons::Text, false) => "git",
    }
}

#[verifier::allow_in_spec]
pub fn branch(mode: Icons) -> &'static str
    returns
        (match mode {
            Icons::Nerd => "󰘬",
            Icons::Text => "branch",
        }),
{
    match mode {
        Icons::Nerd => "󰘬",
        Icons::Text => "branch",
    }
}

#[verifier::allow_in_spec]
pub fn package(mode: Icons) -> &'static str
    returns
        (match mode {
            Icons::Nerd => "󰏗",
            Icons::Text => "installed",
        }),
{
    match mode {
        Icons::Nerd => "󰏗",
        Icons::Text => "installed",
    }
}

#[verifier::allow_in_spec]
pub fn local(mode: Icons) -> &'static str
    returns
        (match mode {
            Icons::Nerd => "󰉋 local",
            Icons::Text => "local",
        }),
{
    match mode {
        Icons::Nerd => "󰉋 local",
        Icons::Text => "local",
    }
}

/// The mark of a source alone.
pub open spec fn source_mark(mode: Icons, source: Source) -> Seq<char> {
    match source {
        Source::Git { url, .. } => git_mark(mode, url@),
        Source::Archive { .. } => package(mode)@,
        Source::Local { .. } => local(mode)@,
    }
}

pub fn source_icon(mode: Icons, source: &Source) -> (r: &'static str)
    ensures
        r@ == source_mark(mode, *source),
{
    match source {
        Source::Git { url, .. } => git(mode, url.as_str()),
        Source::Archive { .. } => package(mode),
        Source::Local { .. } => local(mode),
    }
}

/// `text`, and behind it `part` between `before` and `after` where there is one.
pub open spec fn with_part(
    text: Seq<char>,
    before: Seq<char>,
    part: Option<Seq<char>>,
    after: Seq<char>,
) -> Seq<char> {
    match part {
        Some(part) => text + before + part + after,
        None => text,
    }
}

/// The first seven characters of a revision.
pub open spec fn short_revision(revision: Seq<char>) -> Seq<char> {
    if revision.len() <= 7 {
        revision
    } else {
        revision.take(7)
    }
}

pub fn short_rev(revision: &str) -> (r: String)
    ensures
        r@ == short_revision(revision@),
{
    let chars = chars_of(revision);
    let n: usize = if chars.len() <= 7 {
        chars.len()
    } else {
        7
    };
    assert(chars@.subrange(0, n as int) =~= short_revision(revision@));
    slice_of(&chars, 0, n)
}

/// A source in one line.
pub open spec fn source_text(mode: Icons, source: Source) -> Seq<char> {
    match source {
        Source::Git { url, subpath, branch: followed_branch, revision } => {
            let place = git_mark(mode, url@) + " "@ + url@;
            let inside = with_part(place, " · "@, said(subpath), ""@);
            let followed = with_part(inside, " · "@ + branch(mode)@ + " "@, said(followed_branch), ""@);
            match revision {
                Some(revision) => followed + " ("@ + short_revision(revision@) + ")"@,
                None => followed,
            }
        },
        Source::Archive { url } => package(mode)@ + " "@ + url@,
        Source::Local { path } => with_part(local(mode)@, " "@, said(path), ""@),
    }
}

pub fn source(mode: Icons, from: &Source) -> (r: String)
    ensures
        r@ == source_text(mode, *from),
{
    proof {
        reveal_strlit("");
    }
    match from {
        Source::Git { url, subpath, branch: followed_branch, revision } => {
            let mut text = cat3(git(mode, url.as_str()), " ", url.as_str());
            if let Some(path) = subpath {
                text.append(" · ");
                text.append(path.as_str());
            }
            assert(text@ =~= with_part(
                git_mark(mode, url@) + " "@ + url@,
                " · "@,
                said(*subpath),
                ""@,
            ));
            let ghost inside = text@;
            if let Some(name) = followed_branch {
                text.append(" · ");
                text.append(branch(mode));
                text.append(" ");
                text.append(name.as_str());
            }
            assert(text@ =~= with_part(
                inside,
                " · "@ + branch(mode)@ + " "@,
                said(*followed_branch),
                ""@,
            ));
            if let Some(revision) = revision {
                text.append(" (");
                text.append(short_rev(revision.as_str()).as_str());
                text.append(")");
            }
            text
        },
        Source::Archive { url } => cat3(package(mode), " ", url.as_str()),
        Source::Local { path } => match path {
            Some(path) => {
                let text = cat3(local(mode), " ", path.as_str());
                assert(text@ =~= local(mode)@ + " "@ + path@ + ""@);
                text
            },
            None => local(mode).to_owned(),
        },
    }
}

// ---- laws --------------------------------------------------------------------

/// The host of an address with a scheme is what stands between the scheme, or the user, and
/// the port or the path.
pub proof fn lemma_the_host_of_an_address(
    scheme: Seq<char>,
    user: Seq<char>,
    host: Seq<char>,
    port: Seq<char>,
    path: Seq<char>,
)
    requires
        forall|i: int| 0 <= i < scheme.len() ==> #[trigger] scheme[i] != ':',
        forall|i: int| 0 <= i < user.len() ==> #[trigger] user[i] != '/',
        forall|i: int|
            0 <= i < host.len() ==> #[trigger] host[i] != '/' && host[i] != '@' && host[i] != ':',
        forall|i: int| 0 <= i < port.len() ==> #[trigger] port[i] != '/' && port[i] != '@',
    ensures
        host_of(scheme + "://"@ + host + "/"@ + path) == Some(host),
        host_of(scheme + "://"@ + user + "@"@ + host + "/"@ + path) == Some(host),
        host_of(scheme + "://"@ + host + ":"@ + port + "/"@ + path) == Some(host),
{
    reveal_strlit("://");
    reveal_strlit("/");
    reveal_strlit("@");
    reveal_strlit(":");
    lemma_the_authority(scheme, host, path);
    lemma_host_in_authority(host);
    assert(scheme + "://"@ + host + "/"@ + path =~= scheme + "://"@ + (host + "/"@ + path));
    let with_user = user + "@"@ + host;
    assert forall|i: int| 0 <= i < with_user.len() implies #[trigger] with_user[i] != '/' by {
        if i < user.len() {
            assert(with_user[i] == user[i]);
        } else if i > user.len() {
            assert(with_user[i] == host[i - user.len() - 1]);
        }
    }
    lemma_the_authority(scheme, with_user, path);
    assert(scheme + "://"@ + user + "@"@ + host + "/"@ + path =~= scheme + "://"@ + (with_user
        + "/"@ + path));
    lemma_behind_the_user(user, host);
    let with_port = host + ":"@ + port;
    assert forall|i: int| 0 <= i < with_port.len() implies #[trigger] with_port[i] != '/'
        && with_port[i] != '@' by {
        if i < host.len() {
            assert(with_port[i] == host[i]);
        } else if i > host.len() {
            assert(with_port[i] == port[i - host.len() - 1]);
        }
    }
    lemma_the_authority(scheme, with_port, path);
    assert(scheme + "://"@ + host + ":"@ + port + "/"@ + path =~= scheme + "://"@ + (with_port
        + "/"@ + path));
    crate::text::lemma_what_stands_behind_the_last(with_port, '@');
    assert(!with_port.contains('@'));
    crate::text::lemma_before_first(with_port, ':', host.len() as int);
    assert(with_port.take(host.len() as int) =~= host);
}

proof fn lemma_the_authority(scheme: Seq<char>, authority: Seq<char>, path: Seq<char>)
    requires
        forall|i: int| 0 <= i < scheme.len() ==> #[trigger] scheme[i] != ':',
        forall|i: int| 0 <= i < authority.len() ==> #[trigger] authority[i] != '/',
    ensures
        ({
            let url = scheme + "://"@ + (authority + "/"@ + path);
            &&& cut(url, "://"@) == Some((scheme, authority + "/"@ + path))
            &&& before_first(authority + "/"@ + path, '/') == authority
        }),
{
    reveal_strlit("://");
    reveal_strlit("/");
    let rest = authority + "/"@ + path;
    let url = scheme + "://"@ + rest;
    let n = scheme.len() as int;
    assert(url.subrange(n, n + 3) =~= "://"@);
    assert forall|i: int| 0 <= i < n implies !crate::text::stands_at(url, "://"@, i) by {
        assert(url[i] == scheme[i]);
        if crate::text::stands_at(url, "://"@, i) {
            assert(url.subrange(i, i + 3)[0] == "://"@[0]);
        }
    }
    crate::text::lemma_found(url, "://"@, n);
    assert(url.take(n) =~= scheme);
    assert(url.skip(n + 3) =~= rest);
    let k = authority.len() as int;
    assert forall|i: int| 0 <= i < k implies #[trigger] rest[i] != '/' by {
        assert(rest[i] == authority[i]);
    }
    assert(rest[k] == '/');
    crate::text::lemma_before_first(rest, '/', k);
    assert(rest.take(k) =~= authority);
}

proof fn lemma_host_in_authority(host: Seq<char>)
    requires
        forall|i: int| 0 <= i < host.len() ==> #[trigger] host[i] != '@' && host[i] != ':',
    ensures
        after_last(host, '@') == host,
        before_first(host, ':') == host,
{
    assert(!host.contains('@'));
    crate::text::lemma_what_stands_behind_the_last(host, '@');
    crate::text::lemma_before_first(host, ':', host.len() as int);
    assert(host.take(host.len() as int) =~= host);
}

proof fn lemma_behind_the_user(user: Seq<char>, host: Seq<char>)
    requires
        forall|i: int| 0 <= i < host.len() ==> #[trigger] host[i] != '@' && host[i] != ':',
    ensures
        after_last(user + "@"@ + host, '@') == host,
        before_first(host, ':') == host,
{
    reveal_strlit("@");
    let all = user + "@"@ + host;
    crate::text::lemma_what_stands_behind_the_last(all, '@');
    let tail = after_last(all, '@');
    let n = all.len() - tail.len();
    if tail.len() > host.len() {
        assert(tail[user.len() - n] == all[user.len() as int]);
        assert(tail.contains('@'));
    }
    if tail.len() < host.len() {
        assert(all[n - 1] == '@');
        assert(all[n - 1] == host[n - 1 - user.len() - 1]);
    }
    assert(all.skip(all.len() - host.len()) =~= host);
    lemma_host_in_authority(host);
}

/// The host of an address as it is written for a shell is what stands between the user and
/// the colon.
pub proof fn lemma_the_host_of_a_shell_address(user: Seq<char>, host: Seq<char>, path: Seq<char>)
    requires
        forall|i: int| 0 <= i < user.len() ==> #[trigger] user[i] != ':',
        forall|i: int| 0 <= i < host.len() ==> #[trigger] host[i] != '@' && host[i] != ':',
        !crate::text::has_part(user + "@"@ + host + ":"@ + path, "://"@),
    ensures
        host_of(user + "@"@ + host + ":"@ + path) == Some(host),
{
    reveal_strlit("@");
    reveal_strlit(":");
    let url = user + "@"@ + host + ":"@ + path;
    crate::text::lemma_not_found(url, "://"@);
    let before = user + "@"@ + host;
    let n = before.len() as int;
    assert(url.subrange(n, n + 1) =~= ":"@);
    assert forall|i: int| 0 <= i < n implies !crate::text::stands_at(url, ":"@, i) by {
        if crate::text::stands_at(url, ":"@, i) {
            assert(url.subrange(i, i + 1)[0] == ":"@[0]);
            if i < user.len() {
                assert(url[i] == user[i]);
            } else if i > user.len() {
                assert(url[i] == host[i - user.len() - 1]);
            }
        }
    }
    crate::text::lemma_found(url, ":"@, n);
    assert(url.take(n) =~= before);
    lemma_behind_the_user(user, host);
}

/// An address belongs to GitHub where its host does, however that is written; only then is
/// it marked so.
pub proof fn lemma_github_is_marked(url: Seq<char>, host: Seq<char>)
    requires
        host_of(url) == Some(host),
        host.len() == 10,
    ensures
        (forall|i: int|
            0 <= i < 10 ==> (#[trigger] host[i] == "github.com"@[i] || ('A' <= host[i] <= 'Z'
                && host[i] as int + 32 == "github.com"@[i] as int))) ==> git_mark(Icons::Text, url)
            == "github"@ && git_mark(Icons::Nerd, url) == "󰊤"@,
{
    reveal_strlit("github.com");
    if forall|i: int|
        0 <= i < 10 ==> (#[trigger] host[i] == "github.com"@[i] || ('A' <= host[i] <= 'Z'
            && host[i] as int + 32 == "github.com"@[i] as int)) {
        assert forall|i: int| 0 <= i < host.len() implies ascii_lower(#[trigger] host[i])
            == ascii_lower("github.com"@[i]) by {
            assert(host[i] == "github.com"@[i] || ('A' <= host[i] <= 'Z' && host[i] as int + 32
                == "github.com"@[i] as int));
        }
    }
}

/// Any other host is a plain repository.
pub proof fn lemma_other_hosts_are_not_github(url: Seq<char>)
    requires
        host_of(url) is None || host_of(url)->0.len() != 10,
    ensures
        git_mark(Icons::Text, url) == "git"@,
        git_mark(Icons::Nerd, url) == "󰊢"@,
{
    reveal_strlit("github.com");
}

/// Where a skill comes from is told with its mark and address, then the directory, the
/// branch and the beginning of the revision, as far as they are known.
pub proof fn lemma_a_source_is_told(
    mode: Icons,
    url: String,
    subpath: String,
    followed: String,
    revision: String,
)
    ensures
        source_text(mode, Source::Git { url, subpath: None, branch: None, revision: None })
            == git_mark(mode, url@) + " "@ + url@,
        source_text(
            mode,
            Source::Git { url, subpath: Some(subpath), branch: None, revision: None },
        ) == git_mark(mode, url@) + " "@ + url@ + " · "@ + subpath@ + ""@,
        source_text(
            mode,
            Source::Git { url, subpath: None, branch: Some(followed), revision: None },
        ) == git_mark(mode, url@) + " "@ + url@ + (" · "@ + branch(mode)@ + " "@) + followed@ + ""@,
        source_text(
            mode,
            Source::Git { url, subpath: None, branch: None, revision: Some(revision) },
        ) == git_mark(mode, url@) + " "@ + url@ + " ("@ + short_revision(revision@) + ")"@,
        source_text(mode, Source::Archive { url }) == package(mode)@ + " "@ + url@,
        source_text(mode, Source::Local { path: None }) == local(mode)@,
        source_text(mode, Source::Local { path: Some(url) }) == local(mode)@ + " "@ + url@ + ""@,
        short_revision(revision@).len() <= 7,
        revision@.len() <= 7 ==> short_revision(revision@) == revision@,
        revision@.len() > 7 ==> short_revision(revision@) == revision@.take(7),
{
}

/// Each kind of source has a mark of its own.
pub proof fn lemma_sources_are_marked(url: String, path: Option<String>)
    ensures
        source_mark(Icons::Text, Source::Archive { url }) == "installed"@,
        source_mark(Icons::Text, Source::Local { path }) == "local"@,
        source_mark(
            Icons::Text,
            Source::Git { url, subpath: None, branch: None, revision: None },
        ) == git_mark(Icons::Text, url@),
{
}

/// The marks in words, and with glyphs.
pub proof fn lemma_marks_in_words()
    ensures
        branch(Icons::Text)@ == "branch"@,
        package(Icons::Text)@ == "installed"@,
        local(Icons::Text)@ == "local"@,
        branch(Icons::Nerd)@ == "󰘬"@,
        package(Icons::Nerd)@ == "󰏗"@,
        local(Icons::Nerd)@ == "󰉋 local"@,
{
}

} // verus!

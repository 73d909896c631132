//! The verified downloader core: the HTTPS/allow-list URL gate and the
//! hash- and size-pinned byte accumulator. The surrounding program performs
//! the actual HTTP request and file write; every byte it receives passes
//! through `DownloadBuffer`, which releases the content only when both the
//! exact length and the SHA-512 digest match the manifest's pins.
use vstd::prelude::*;

use sha2::Digest;

use crate::errors::InstallError;
use crate::errors::IntegrityError;
use crate::errors::NetworkError;
use crate::strutil::push_char;
use crate::strutil::str_contains_char;
use crate::strutil::str_eq;

verus! {

/// The scheme and the remainder of a URL: the text before the first `:`,
/// which must be followed by `//`, and the text after `://`.
pub open spec fn spec_split_at_scheme(s: Seq<char>) -> Option<(Seq<char>, Seq<char>)>
    decreases s.len(),
{
    if s.len() == 0 {
        None
    } else if s[0] == ':' {
        if s.len() >= 3 && s[1] == '/' && s[2] == '/' {
            Some((Seq::<char>::empty(), s.skip(3)))
        } else {
            None
        }
    } else {
        match spec_split_at_scheme(s.skip(1)) {
            Some(parts) => Some((seq![s[0]] + parts.0, parts.1)),
            None => None,
        }
    }
}

/// The authority of the remainder: its characters before the first `/`,
/// `?` or `#`.
pub open spec fn spec_authority_of(rest: Seq<char>) -> Seq<char>
    decreases rest.len(),
{
    if rest.len() == 0 {
        Seq::<char>::empty()
    } else if rest[0] == '/' || rest[0] == '?' || rest[0] == '#' {
        Seq::<char>::empty()
    } else {
        seq![rest[0]] + spec_authority_of(rest.skip(1))
    }
}

/// The authority's host: its characters before the first `:`.
pub open spec fn spec_auth_host(auth: Seq<char>) -> Seq<char>
    decreases auth.len(),
{
    if auth.len() == 0 {
        Seq::<char>::empty()
    } else if auth[0] == ':' {
        Seq::<char>::empty()
    } else {
        seq![auth[0]] + spec_auth_host(auth.skip(1))
    }
}

/// The authority's port text: its characters after the first `:`; empty
/// where there is no port.
pub open spec fn spec_auth_port(auth: Seq<char>) -> Seq<char>
    decreases auth.len(),
{
    if auth.len() == 0 {
        Seq::<char>::empty()
    } else if auth[0] == ':' {
        auth.skip(1)
    } else {
        spec_auth_port(auth.skip(1))
    }
}

/// A well-formed port: decimal digits only, possibly none.
pub open spec fn spec_port_ok(p: Seq<char>) -> bool {
    forall|j: int| 0 <= j < p.len() ==> '0' <= p[j] && p[j] <= '9'
}

/// An ASCII upper-case letter folded to lower case.
pub open spec fn spec_lower_char(c: char) -> char {
    if 'A' <= c && c <= 'Z' {
        (((c as u32) + 32) as u8) as char
    } else {
        c
    }
}

/// ASCII-lower-case folding of a character sequence.
pub open spec fn spec_lower(s: Seq<char>) -> Seq<char> {
    s.map_values(|c: char| spec_lower_char(c))
}

/// A character this gate admits in a case-folded host: a plain lower-case
/// label character. An unusual name (an internationalized or
/// percent-encoded host) is rejected rather than interpreted.
pub open spec fn spec_host_char_ok(c: char) -> bool {
    ('a' <= c && c <= 'z') || ('0' <= c && c <= '9') || c == '.' || c == '-'
}

pub open spec fn spec_host_chars_ok(h: Seq<char>) -> bool {
    forall|j: int| 0 <= j < h.len() ==> spec_host_char_ok(h[j])
}

/// The URL gate: accepts exactly the URLs that parse into a scheme and an
/// authority without userinfo, whose port (if any) is decimal digits, whose
/// case-folded host is nonempty, plain and allow-listed, and whose
/// case-folded scheme is `http` or `https`; the accepted URL is returned
/// with its scheme upgraded to `https` and the remainder, port included,
/// as it was.
pub open spec fn spec_check_url(s: Seq<char>, allowed: Seq<Seq<char>>) -> Result<
    Seq<char>,
    InstallError,
> {
    match spec_split_at_scheme(s) {
        None => Err(InstallError::Network(NetworkError::InvalidUrl)),
        Some(parts) => {
            let auth = spec_authority_of(parts.1);
            let host = spec_lower(spec_auth_host(auth));
            let scheme = spec_lower(parts.0);
            if auth.contains('@') {
                Err(InstallError::Network(NetworkError::DomainNotAllowed))
            } else if !spec_port_ok(spec_auth_port(auth)) {
                Err(InstallError::Network(NetworkError::InvalidUrl))
            } else if host.len() == 0 {
                Err(InstallError::Network(NetworkError::NoHost))
            } else if !(spec_host_chars_ok(host) && allowed.contains(host)) {
                Err(InstallError::Network(NetworkError::DomainNotAllowed))
            } else if !(scheme == "http"@ || scheme == "https"@) {
                Err(InstallError::Network(NetworkError::UnexpectedScheme))
            } else {
                Ok("https://"@ + parts.1)
            }
        },
    }
}

proof fn lemma_split_scheme_hit(s: Seq<char>, i: int)
    requires
        0 <= i < s.len(),
        s[i] == ':',
        forall|j: int| 0 <= j < i ==> s[j] != ':',
    ensures
        spec_split_at_scheme(s) == (if i + 3 <= s.len() && s[i + 1] == '/' && s[i + 2] == '/' {
            Some((s.take(i), s.skip(i + 3)))
        } else {
            None::<(Seq<char>, Seq<char>)>
        }),
    decreases i,
{
    if i == 0 {
        assert(s.take(0) =~= Seq::<char>::empty());
    } else {
        lemma_split_scheme_hit(s.skip(1), i - 1);
        if i + 3 <= s.len() && s[i + 1] == '/' && s[i + 2] == '/' {
            assert(s.skip(1).skip(i - 1 + 3) =~= s.skip(i + 3));
            assert(seq![s[0]] + s.skip(1).take(i - 1) =~= s.take(i));
        }
    }
}

proof fn lemma_split_scheme_none(s: Seq<char>)
    requires
        forall|j: int| 0 <= j < s.len() ==> s[j] != ':',
    ensures
        spec_split_at_scheme(s) is None,
    decreases s.len(),
{
    if s.len() > 0 {
        lemma_split_scheme_none(s.skip(1));
    }
}

proof fn lemma_authority_upto(rest: Seq<char>, k: int)
    requires
        0 <= k <= rest.len(),
        forall|j: int| 0 <= j < k ==> rest[j] != '/' && rest[j] != '?' && rest[j] != '#',
        k < rest.len() ==> (rest[k] == '/' || rest[k] == '?' || rest[k] == '#'),
    ensures
        spec_authority_of(rest) == rest.take(k),
    decreases k,
{
    if k == 0 {
        assert(rest.take(0) =~= Seq::<char>::empty());
    } else {
        lemma_authority_upto(rest.skip(1), k - 1);
        assert(seq![rest[0]] + rest.skip(1).take(k - 1) =~= rest.take(k));
    }
}

proof fn lemma_auth_split(auth: Seq<char>, i: int)
    requires
        0 <= i <= auth.len(),
        forall|j: int| 0 <= j < i ==> auth[j] != ':',
        i < auth.len() ==> auth[i] == ':',
    ensures
        spec_auth_host(auth) == auth.take(i),
        spec_auth_port(auth) == (if i < auth.len() {
            auth.skip(i + 1)
        } else {
            Seq::<char>::empty()
        }),
    decreases i,
{
    if i == 0 {
        assert(auth.take(0) =~= Seq::<char>::empty());
    } else {
        lemma_auth_split(auth.skip(1), i - 1);
        assert(seq![auth[0]] + auth.skip(1).take(i - 1) =~= auth.take(i));
        if i < auth.len() {
            assert(auth.skip(1).skip(i - 1 + 1) =~= auth.skip(i + 1));
        }
    }
}

/// Index of the first `:` in `s`, if any.
fn find_colon(s: &str) -> (r: Option<usize>)
    ensures
        match r {
            Some(i) => i < s@.len() && s@[i as int] == ':' && forall|j: int|
                0 <= j < i ==> s@[j] != ':',
            None => forall|j: int| 0 <= j < s@.len() ==> s@[j] != ':',
        },
{
    let n = s.unicode_len();
    let mut i: usize = 0;
    while i < n
        invariant
            n == s@.len(),
            0 <= i <= n,
            forall|j: int| 0 <= j < i ==> s@[j] != ':',
        decreases n - i,
    {
        if s.get_char(i) == ':' {
            return Some(i);
        }
        i = i + 1;
    }
    None
}

/// Length of the authority at the front of `rest`.
fn authority_len(rest: &str) -> (r: usize)
    ensures
        r <= rest@.len(),
        spec_authority_of(rest@) == rest@.take(r as int),
{
    let n = rest.unicode_len();
    let mut i: usize = 0;
    while i < n
        invariant
            n == rest@.len(),
            0 <= i <= n,
            forall|j: int| 0 <= j < i ==> rest@[j] != '/' && rest@[j] != '?' && rest@[j] != '#',
        decreases n - i,
    {
        let c = rest.get_char(i);
        if c == '/' || c == '?' || c == '#' {
            proof {
                lemma_authority_upto(rest@, i as int);
            }
            return i;
        }
        i = i + 1;
    }
    proof {
        lemma_authority_upto(rest@, n as int);
    }
    n
}

/// Whether the port text is decimal digits only.
fn digits_only(p: &str) -> (r: bool)
    ensures
        r == spec_port_ok(p@),
{
    let n = p.unicode_len();
    let mut i: usize = 0;
    while i < n
        invariant
            n == p@.len(),
            0 <= i <= n,
            forall|j: int| 0 <= j < i ==> '0' <= p@[j] && p@[j] <= '9',
        decreases n - i,
    {
        let c = p.get_char(i);
        if !('0' <= c && c <= '9') {
            assert(!('0' <= p@[i as int] && p@[i as int] <= '9'));
            return false;
        }
        i = i + 1;
    }
    true
}

/// The string with its ASCII upper-case letters folded to lower case.
fn lower_fold(s: &str) -> (r: String)
    ensures
        r@ == spec_lower(s@),
{
    let n = s.unicode_len();
    let mut out = String::new();
    let mut i: usize = 0;
    proof {
        assert(out@ =~= spec_lower(s@.take(0)));
    }
    while i < n
        invariant
            n == s@.len(),
            0 <= i <= n,
            out@ == spec_lower(s@.take(i as int)),
        decreases n - i,
    {
        let c = s.get_char(i);
        let folded: char = if 'A' <= c && c <= 'Z' {
            (((c as u32) + 32) as u8) as char
        } else {
            c
        };
        push_char(&mut out, folded);
        proof {
            assert(folded == spec_lower_char(s@[i as int]));
            assert(spec_lower(s@.take(i as int + 1)) =~= spec_lower(s@.take(i as int)).push(
                spec_lower_char(s@[i as int]),
            ));
        }
        i = i + 1;
    }
    proof {
        assert(s@.take(n as int) =~= s@);
    }
    out
}

/// Whether every character of `h` is a plain host character.
fn host_chars_ok(h: &str) -> (r: bool)
    ensures
        r == spec_host_chars_ok(h@),
{
    let n = h.unicode_len();
    let mut i: usize = 0;
    while i < n
        invariant
            n == h@.len(),
            0 <= i <= n,
            forall|j: int| 0 <= j < i ==> spec_host_char_ok(h@[j]),
        decreases n - i,
    {
        let c = h.get_char(i);
        if !(('a' <= c && c <= 'z') || ('0' <= c && c <= '9') || c == '.' || c == '-') {
            assert(!spec_host_char_ok(h@[i as int]));
            return false;
        }
        i = i + 1;
    }
    true
}

/// Whether the host equals one of the allow-listed hosts.
fn host_allowed(h: &str, allowed: &Vec<String>) -> (r: bool)
    ensures
        r == allowed.deep_view().contains(h@),
{
    let n = allowed.len();
    let mut i: usize = 0;
    while i < n
        invariant
            n == allowed@.len(),
            0 <= i <= n,
            forall|j: int| 0 <= j < i ==> allowed.deep_view()[j] != h@,
        decreases n - i,
    {
        if str_eq(h, allowed[i].as_str()) {
            proof {
                assert(allowed.deep_view()[i as int] == h@);
            }
            return true;
        }
        i = i + 1;
    }
    assert(!allowed.deep_view().contains(h@)) by {
        if allowed.deep_view().contains(h@) {
            let j = choose|j: int|
                0 <= j < allowed.deep_view().len() && allowed.deep_view()[j] == h@;
            assert(allowed.deep_view()[j] != h@);
        }
    }
    false
}

/// Validates a download URL against the domain allow-list and upgrades its
/// scheme to `https`; accepts and rejects exactly as `spec_check_url` says.
pub fn check_url(url: &str, allowed: &Vec<String>) -> (r: Result<String, InstallError>)
    ensures
        match r {
            Ok(out) => spec_check_url(url@, allowed.deep_view()) matches Ok(sout) && out@ == sout,
            Err(e) => spec_check_url(url@, allowed.deep_view()) == Err::<Seq<char>, _>(e),
        },
{
    let n = url.unicode_len();
    let colon = match find_colon(url) {
        None => {
            proof {
                lemma_split_scheme_none(url@);
            }
            return Err(InstallError::Network(NetworkError::InvalidUrl));
        },
        Some(i) => i,
    };
    proof {
        lemma_split_scheme_hit(url@, colon as int);
    }
    if !(n - colon >= 3 && url.get_char(colon + 1) == '/' && url.get_char(colon + 2) == '/') {
        return Err(InstallError::Network(NetworkError::InvalidUrl));
    }
    let rest = url.substring_char(colon + 3, n);
    let scheme = url.substring_char(0, colon);
    let alen = authority_len(rest);
    let auth = rest.substring_char(0, alen);
    if str_contains_char(auth, '@') {
        return Err(InstallError::Network(NetworkError::DomainNotAllowed));
    }
    let hl = match find_colon(auth) {
        Some(i) => i,
        None => alen,
    };
    proof {
        lemma_auth_split(auth@, hl as int);
    }
    let port = if hl < alen {
        auth.substring_char(hl + 1, alen)
    } else {
        auth.substring_char(alen, alen)
    };
    proof {
        if hl >= alen {
            assert(port@ =~= Seq::<char>::empty());
        }
    }
    if !digits_only(port) {
        return Err(InstallError::Network(NetworkError::InvalidUrl));
    }
    let host = lower_fold(auth.substring_char(0, hl));
    if hl == 0 {
        return Err(InstallError::Network(NetworkError::NoHost));
    }
    if !(host_chars_ok(host.as_str()) && host_allowed(host.as_str(), allowed)) {
        return Err(InstallError::Network(NetworkError::DomainNotAllowed));
    }
    let scheme_folded = lower_fold(scheme);
    if !(str_eq(scheme_folded.as_str(), "http") || str_eq(scheme_folded.as_str(), "https")) {
        return Err(InstallError::Network(NetworkError::UnexpectedScheme));
    }
    let mut out = String::new();
    out.append("https://");
    out.append(rest);
    proof {
        assert(out@ =~= "https://"@ + url@.skip(colon as int + 3));
    }
    Ok(out)
}

/// Requires a 200 answer from a server; any other status is a hard failure
/// for that mirror.
pub fn require_ok_status(status: u16) -> (r: Result<(), InstallError>)
    ensures
        r is Ok <==> status == 200,
        status != 200 ==> r == Result::<(), InstallError>::Err(
            InstallError::Network(NetworkError::Status(status)),
        ),
{
    if status == 200 {
        Ok(())
    } else {
        Err(InstallError::Network(NetworkError::Status(status)))
    }
}

/// One file's walk along its mirror list: mirrors are tried in order, a
/// failed attempt records its error and moves on to the next, and once a
/// nonempty list is exhausted the last error is surfaced. Only a successful
/// attempt ends the walk early; the surrounding program stops calling then.
pub struct MirrorRun {
    pub urls: Vec<String>,
    pub next: usize,
    pub last_err: Option<InstallError>,
}

impl MirrorRun {
    /// Attempts advance in order, and every attempt so far has recorded an
    /// error.
    pub open spec fn wf(&self) -> bool {
        self.next <= self.urls@.len() && (self.next > 0 ==> self.last_err is Some)
    }

    pub fn new(urls: Vec<String>) -> (r: Self)
        ensures
            r.wf(),
            r.urls == urls,
            r.next == 0,
            r.last_err is None,
    {
        MirrorRun { urls, next: 0, last_err: None }
    }

    /// The next mirror to try, if any remain.
    pub fn pending(&self) -> (r: Option<&String>)
        requires
            self.wf(),
        ensures
            match r {
                Some(u) => self.next < self.urls@.len() && *u == self.urls@[self.next as int],
                None => self.next == self.urls@.len(),
            },
    {
        if self.next < self.urls.len() {
            Some(&self.urls[self.next])
        } else {
            None
        }
    }

    /// Records the pending mirror's failure and moves to the next mirror;
    /// the error is kept, so the last one can be surfaced.
    pub fn failed(&mut self, e: InstallError)
        requires
            old(self).wf(),
            old(self).next < old(self).urls@.len(),
        ensures
            final(self).wf(),
            final(self).urls == old(self).urls,
            final(self).next == old(self).next + 1,
            final(self).last_err == Some(e),
    {
        let n = self.urls.len();
        proof {
            assert(self.next < n);
        }
        self.last_err = Some(e);
        self.next = self.next + 1;
    }

    /// The last attempt's error, surfaced once every mirror of a nonempty
    /// list has failed.
    pub fn surfaced_error(self) -> (r: InstallError)
        requires
            self.wf(),
            self.next == self.urls@.len(),
            self.urls@.len() > 0,
        ensures
            self.last_err == Some(r),
    {
        match self.last_err {
            Some(e) => e,
            None => unreached(),
        }
    }
}

/// The SHA-512 digest of a byte sequence, as the outside hash
/// implementation computes it.
pub uninterp spec fn spec_sha512(data: Seq<u8>) -> Seq<u8>;

/// Relies on sha2's `Sha512`: the digest is a function of the input bytes
/// alone and is 64 bytes long.
#[verifier::external_body]
fn sha512(data: &[u8]) -> (r: Vec<u8>)
    ensures
        r@ == spec_sha512(data@),
        r@.len() == 64,
{
    sha2::Sha512::digest(data).to_vec()
}

/// Byte-for-byte equality of two byte vectors.
fn bytes_eq(a: &Vec<u8>, b: &Vec<u8>) -> (r: bool)
    ensures
        r == (a@ == b@),
{
    if a.len() != b.len() {
        return false;
    }
    let n = a.len();
    let mut i: usize = 0;
    while i < n
        invariant
            n == a@.len(),
            n == b@.len(),
            0 <= i <= n,
            forall|j: int| 0 <= j < i ==> a@[j] == b@[j],
        decreases n - i,
    {
        if a[i] != b[i] {
            return false;
        }
        i = i + 1;
    }
    proof {
        assert(a@ =~= b@);
    }
    true
}

/// `n` capped at `u64::MAX`.
pub open spec fn spec_cap_u64(n: int) -> u64 {
    if n > u64::MAX {
        u64::MAX
    } else {
        n as u64
    }
}

/// Accumulates a download's bytes against the manifest's pinned size and
/// SHA-512 hash. Bytes go in chunk by chunk; the stream is aborted the
/// instant it exceeds the expected size; the collected content comes back
/// out only if both the exact length and the digest match.
pub struct DownloadBuffer {
    data: Vec<u8>,
    expected_size: u64,
    expected_hash: Vec<u8>,
}

impl DownloadBuffer {
    /// The bytes received so far.
    pub closed spec fn spec_data(&self) -> Seq<u8> {
        self.data@
    }

    /// The pinned exact byte length.
    pub closed spec fn spec_expected_size(&self) -> u64 {
        self.expected_size
    }

    /// The pinned SHA-512 digest.
    pub closed spec fn spec_expected_hash(&self) -> Seq<u8> {
        self.expected_hash@
    }

    pub fn new(expected_hash: Vec<u8>, expected_size: u64) -> (r: Self)
        ensures
            r.spec_data() == Seq::<u8>::empty(),
            r.spec_expected_size() == expected_size,
            r.spec_expected_hash() == expected_hash@,
    {
        DownloadBuffer { data: Vec::new(), expected_size, expected_hash }
    }

    /// Appends one chunk of the response stream. Fails, without appending,
    /// the instant the running total would exceed the expected size.
    pub fn push_chunk(&mut self, chunk: &[u8]) -> (r: Result<(), InstallError>)
        ensures
            final(self).spec_expected_size() == old(self).spec_expected_size(),
            final(self).spec_expected_hash() == old(self).spec_expected_hash(),
            old(self).spec_data().len() + chunk@.len() <= old(self).spec_expected_size() ==> (r
                is Ok && final(self).spec_data() == old(self).spec_data() + chunk@),
            old(self).spec_data().len() + chunk@.len() > old(self).spec_expected_size() ==> (final(self).spec_data() == old(self).spec_data() && r == Result::<(), InstallError>::Err(
                InstallError::Integrity(
                    IntegrityError::TooLarge {
                        expected: old(self).spec_expected_size(),
                        received: spec_cap_u64(
                            old(self).spec_data().len() + chunk@.len() as int,
                        ),
                    },
                ),
            )),
    {
        let total: u128 = self.data.len() as u128 + chunk.len() as u128;
        if total > self.expected_size as u128 {
            let received: u64 = if total > u64::MAX as u128 {
                u64::MAX
            } else {
                total as u64
            };
            return Err(
                InstallError::Integrity(
                    IntegrityError::TooLarge { expected: self.expected_size, received },
                ),
            );
        }
        self.data.extend_from_slice(chunk);
        Ok(())
    }

    /// The number of bytes received so far.
    pub fn received(&self) -> (r: usize)
        ensures
            r == self.spec_data().len(),
    {
        self.data.len()
    }

    /// Final verification: returns the collected bytes exactly when their
    /// count equals the expected size and their SHA-512 digest equals the
    /// expected hash; otherwise the integrity error carrying the expected
    /// and the received value of whichever check failed.
    pub fn finish(self) -> (r: Result<Vec<u8>, InstallError>)
        ensures
            match r {
                Ok(out) => out@ == self.spec_data() && self.spec_data().len()
                    == self.spec_expected_size() && spec_sha512(self.spec_data())
                    == self.spec_expected_hash(),
                Err(e) => {
                    &&& (self.spec_data().len() != self.spec_expected_size() || spec_sha512(
                        self.spec_data(),
                    ) != self.spec_expected_hash())
                    &&& (self.spec_data().len() != self.spec_expected_size() ==> e
                        == InstallError::Integrity(
                        IntegrityError::WrongSize {
                            expected: self.spec_expected_size(),
                            received: self.spec_data().len() as u64,
                        },
                    ))
                    &&& (self.spec_data().len() == self.spec_expected_size() ==> {
                        &&& e matches InstallError::Integrity(
                            IntegrityError::WrongHash { expected, received },
                        )
                        &&& expected@ == self.spec_expected_hash()
                        &&& received@ == spec_sha512(self.spec_data())
                    })
                },
            },
    {
        if self.data.len() as u128 != self.expected_size as u128 {
            return Err(
                InstallError::Integrity(
                    IntegrityError::WrongSize {
                        expected: self.expected_size,
                        received: self.data.len() as u64,
                    },
                ),
            );
        }
        let digest = sha512(self.data.as_slice());
        if !bytes_eq(&digest, &self.expected_hash) {
            return Err(
                InstallError::Integrity(
                    IntegrityError::WrongHash { expected: self.expected_hash, received: digest },
                ),
            );
        }
        Ok(self.data)
    }
}

} // verus!

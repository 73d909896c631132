//! Override extraction from the pack's bundled archive. The archive is
//! opened over in-memory bytes; entries under `overrides/` and
//! `client-overrides/` are configuration files to merge into the
//! destination, with the client-specific variant taking precedence, every
//! written path passing the sanitizer, and directory entries and unrelated
//! archive content ignored.
use vstd::prelude::*;

use std::io::Cursor;
use std::io::Read;

use crate::errors::InstallError;
use crate::errors::ValidationError;
use crate::paths::parse_and_sanitize_path;
use crate::paths::spec_join_slash;
use crate::paths::spec_sanitize;
use crate::strutil::str_starts_with;

verus! {

#[verifier::external_type_specification]
#[verifier::external_body]
#[verifier::reject_recursive_types(T)]
pub struct ExCursor<T>(Cursor<T>);

#[verifier::external_type_specification]
#[verifier::external_body]
#[verifier::reject_recursive_types(R)]
pub struct ExZipArchive<R>(zip::read::ZipArchive<R>);

#[verifier::external_type_specification]
#[verifier::external_body]
pub struct ExZipError(zip::result::ZipError);

/// The decoded entry names of the archive, in directory order.
pub uninterp spec fn zip_names(z: zip::read::ZipArchive<Cursor<Vec<u8>>>) -> Seq<Seq<char>>;

/// The full content of each entry, keyed by lookup name: the strings whose
/// encoded bytes key the archive's directory. The directory is keyed by the
/// raw name bytes, so a listed name whose raw bytes differ from its decoded
/// form (a non-ASCII name) has no lookup key here.
pub uninterp spec fn zip_contents(z: zip::read::ZipArchive<Cursor<Vec<u8>>>) -> Map<
    Seq<char>,
    Seq<u8>,
>;

/// The lookup names on which opening and fully reading the entry succeeds.
/// The archive lives in memory, so success is a function of the archive
/// value and the name alone.
pub uninterp spec fn zip_readable(z: zip::read::ZipArchive<Cursor<Vec<u8>>>) -> Set<Seq<char>>;

/// A sequence of ASCII characters only.
pub open spec fn spec_chars_ascii(s: Seq<char>) -> bool {
    forall|i: int| 0 <= i < s.len() ==> (s[i] as int) < 128
}

/// Relies on zip's `ZipArchive::new`: parses an archive's central directory
/// out of the given bytes.
#[verifier::external_body]
pub fn zip_open(bytes: Vec<u8>) -> (r: Result<
    zip::read::ZipArchive<Cursor<Vec<u8>>>,
    zip::result::ZipError,
>) {
    zip::read::ZipArchive::new(Cursor::new(bytes))
}

/// Relies on zip's `ZipArchive::file_names`: it lists every entry's decoded
/// name. The directory itself is keyed by raw name bytes; for a listed name
/// of ASCII characters only, both decodings (UTF-8-lossy and CP437) keep
/// ASCII bytes as they are, so its raw bytes equal its encoding and its
/// lookup finds the entry.
#[verifier::external_body]
pub fn zip_file_names(z: &zip::read::ZipArchive<Cursor<Vec<u8>>>) -> (r: Vec<String>)
    ensures
        r.deep_view() == zip_names(*z),
        forall|i: int|
            0 <= i < r.deep_view().len() && spec_chars_ascii(#[trigger] r.deep_view()[i])
                ==> zip_contents(*z).dom().contains(r.deep_view()[i]),
{
    z.file_names().map(|s| s.to_string()).collect()
}

/// Relies on zip's `ZipArchive::index_for_name`: an entry is present
/// exactly when its name is in the directory.
#[verifier::external_body]
pub fn zip_has(z: &zip::read::ZipArchive<Cursor<Vec<u8>>>, name: &str) -> (r: bool)
    ensures
        r == zip_contents(*z).dom().contains(name@),
{
    z.index_for_name(name).is_some()
}

/// Relies on zip's `ZipArchive::by_name` and std's `read_to_end`: over an
/// in-memory archive, whether the lookup and the full decompression succeed
/// is a function of the archive value and the name; on success the entry's
/// whole content comes back; reading moves only the reader, never the
/// directory.
#[verifier::external_body]
pub fn zip_read(z: &mut zip::read::ZipArchive<Cursor<Vec<u8>>>, name: &str) -> (r: Result<
    Vec<u8>,
    zip::result::ZipError,
>)
    ensures
        zip_names(*final(z)) == zip_names(*old(z)),
        zip_contents(*final(z)) == zip_contents(*old(z)),
        zip_readable(*final(z)) == zip_readable(*old(z)),
        r is Ok <==> zip_readable(*old(z)).contains(name@),
        r matches Ok(b) ==> zip_contents(*old(z)).dom().contains(name@) && b@ == zip_contents(
            *old(z),
        )[name@],
{
    let mut file = z.by_name(name)?;
    let mut buf: Vec<u8> = Vec::new();
    file.read_to_end(&mut buf)?;
    Ok(buf)
}

/// A directory entry: its name ends with a separator.
pub open spec fn spec_name_is_dir(n: Seq<char>) -> bool {
    n.len() > 0 && (n.last() == '/' || n.last() == '\\')
}

/// Whether the entry name names a directory.
fn name_is_dir(s: &str) -> (r: bool)
    ensures
        r == spec_name_is_dir(s@),
{
    let n = s.unicode_len();
    if n == 0 {
        false
    } else {
        let c = s.get_char(n - 1);
        c == '/' || c == '\\'
    }
}

/// The destination-relative path of an override entry: the entry name with
/// its `overrides/` or `client-overrides/` prefix stripped; `None` for an
/// entry that is no configuration override.
pub open spec fn spec_strip_override(n: Seq<char>) -> Option<Seq<char>> {
    if "overrides/"@.is_prefix_of(n) {
        Some(n.skip("overrides/"@.len() as int))
    } else if "client-overrides/"@.is_prefix_of(n) {
        Some(n.skip("client-overrides/"@.len() as int))
    } else {
        None
    }
}

/// The precedence rule: an entry whose name starts with `overrides` is
/// skipped when the archive also holds an entry named `client-<name>`.
pub open spec fn spec_skipped_for_client(n: Seq<char>, names: Set<Seq<char>>) -> bool {
    "overrides"@.is_prefix_of(n) && names.contains("client-"@ + n)
}

/// An entry the extraction must read: not skipped by the precedence rule,
/// not a directory, and carrying an override prefix.
pub open spec fn spec_entry_read(n: Seq<char>, present: Set<Seq<char>>) -> bool {
    !spec_skipped_for_client(n, present) && !spec_name_is_dir(n) && spec_strip_override(n) is Some
}

/// One override file to write: its sanitized destination-relative path and
/// its content.
#[derive(Debug, PartialEq, Eq)]
pub struct OverrideFile {
    pub path: String,
    pub data: Vec<u8>,
}

/// An override file, as specifications see it.
#[verifier::ext_equal]
pub ghost struct SpecOverrideFile {
    pub path: Seq<char>,
    pub data: Seq<u8>,
}

impl View for OverrideFile {
    type V = SpecOverrideFile;

    open spec fn view(&self) -> SpecOverrideFile {
        SpecOverrideFile { path: self.path@, data: self.data@ }
    }
}

impl DeepView for OverrideFile {
    type V = SpecOverrideFile;

    open spec fn deep_view(&self) -> SpecOverrideFile {
        self.view()
    }
}

/// The override files of an archive, in entry order: entries skipped by the
/// client-precedence rule, directory entries and non-override entries
/// contribute nothing; the first override path the sanitizer rejects fails
/// the extraction.
pub open spec fn spec_extract(
    names: Seq<Seq<char>>,
    contents: Map<Seq<char>, Seq<u8>>,
    present: Set<Seq<char>>,
) -> Result<Seq<SpecOverrideFile>, InstallError>
    decreases names.len(),
{
    if names.len() == 0 {
        Ok(Seq::<SpecOverrideFile>::empty())
    } else {
        let n = names[0];
        let rest = spec_extract(names.skip(1), contents, present);
        if spec_skipped_for_client(n, present) || spec_name_is_dir(n) {
            rest
        } else {
            match spec_strip_override(n) {
                None => rest,
                Some(rel) => match spec_sanitize(rel) {
                    None => Err(InstallError::Validation(ValidationError::UnsafePath)),
                    Some(comps) => match rest {
                        Err(e) => Err(e),
                        Ok(v) => Ok(
                            seq![SpecOverrideFile { path: spec_join_slash(comps), data: contents[n] }]
                                + v,
                        ),
                    },
                },
            }
        }
    }
}

/// When the archive holds both `overrides/<p>` and `client-overrides/<p>`,
/// the plain entry is skipped and the client entry is kept: only the
/// client-specific content reaches the destination path.
pub proof fn lemma_client_override_wins(names: Set<Seq<char>>, p: Seq<char>)
    requires
        names.contains("overrides/"@ + p),
        names.contains("client-overrides/"@ + p),
    ensures
        spec_skipped_for_client("overrides/"@ + p, names),
        !spec_skipped_for_client("client-overrides/"@ + p, names),
        spec_strip_override("client-overrides/"@ + p) == Some(p),
{
    reveal_strlit("overrides");
    reveal_strlit("overrides/");
    reveal_strlit("client-");
    reveal_strlit("client-overrides/");
    assert("overrides"@.is_prefix_of("overrides/"@ + p)) by {
        assert(("overrides/"@ + p).take(9) =~= "overrides"@);
    }
    assert("client-"@ + ("overrides/"@ + p) =~= "client-overrides/"@ + p);
    assert(!"overrides"@.is_prefix_of("client-overrides/"@ + p)) by {
        assert(("client-overrides/"@ + p)[0] == 'c');
        assert("overrides"@[0] == 'o');
        if "overrides"@.is_prefix_of("client-overrides/"@ + p) {
            assert(("client-overrides/"@ + p).take(9)[0] == 'c');
        }
    }
    assert(!"overrides/"@.is_prefix_of("client-overrides/"@ + p)) by {
        if "overrides/"@.is_prefix_of("client-overrides/"@ + p) {
            assert(("client-overrides/"@ + p).take(10)[0] == 'c');
            assert("overrides/"@[0] == 'o');
        }
    }
    assert(("client-overrides/"@ + p).skip(17) =~= p);
}

/// Collects the archive's override files, exactly as `spec_extract` says
/// over the archive's directory: it succeeds whenever every override entry
/// it must read is readable and each of their paths passes the sanitizer;
/// a read failure is a filesystem error.
pub fn extract_overrides(z: &mut zip::read::ZipArchive<Cursor<Vec<u8>>>) -> (r: Result<
    Vec<OverrideFile>,
    InstallError,
>)
    ensures
        zip_names(*final(z)) == zip_names(*old(z)),
        zip_contents(*final(z)) == zip_contents(*old(z)),
        zip_readable(*final(z)) == zip_readable(*old(z)),
        ({
            let names = zip_names(*old(z));
            let present = zip_contents(*old(z)).dom();
            let sp = spec_extract(names, zip_contents(*old(z)), present);
            &&& (r matches Ok(v) ==> sp matches Ok(sv) && v.deep_view() == sv)
            &&& (sp matches Err(e) ==> r == Err::<Vec<OverrideFile>, InstallError>(e) || r == Err::<
                Vec<OverrideFile>,
                InstallError,
            >(InstallError::Filesystem))
            &&& ((sp is Ok && forall|j: int|
                0 <= j < names.len() && #[trigger] spec_entry_read(names[j], present)
                    ==> zip_readable(*old(z)).contains(names[j])) ==> r is Ok)
            &&& (r == Err::<Vec<OverrideFile>, InstallError>(InstallError::Filesystem)
                ==> exists|j: int|
                0 <= j < names.len() && #[trigger] spec_entry_read(names[j], present)
                    && !zip_readable(*old(z)).contains(names[j]))
        }),
{
    let names = zip_file_names(z);
    let ghost gnames = zip_names(*z);
    let ghost gcont = zip_contents(*z);
    let ghost greadable = zip_readable(*z);
    let n = names.len();
    let mut out: Vec<OverrideFile> = Vec::new();
    let mut i: usize = 0;
    proof {
        assert(gnames.skip(0) =~= gnames);
        if spec_extract(gnames, gcont, gcont.dom()) is Ok {
            assert(out.deep_view() + spec_extract(gnames, gcont, gcont.dom()).unwrap()
                =~= spec_extract(gnames, gcont, gcont.dom()).unwrap());
        }
    }
    while i < n
        invariant
            n == names@.len(),
            names.deep_view() == gnames,
            zip_names(*old(z)) == gnames,
            zip_contents(*old(z)) == gcont,
            zip_readable(*old(z)) == greadable,
            zip_names(*z) == gnames,
            zip_contents(*z) == gcont,
            zip_readable(*z) == greadable,
            0 <= i <= n,
            match spec_extract(gnames.skip(i as int), gcont, gcont.dom()) {
                Ok(sv) => spec_extract(gnames, gcont, gcont.dom()) matches Ok(full) && full
                    == out.deep_view() + sv,
                Err(e) => spec_extract(gnames, gcont, gcont.dom()) == Err::<
                    Seq<SpecOverrideFile>,
                    InstallError,
                >(e),
            },
        decreases n - i,
    {
        proof {
            assert(gnames.skip(i as int)[0] == gnames[i as int]);
            assert(gnames.skip(i as int).skip(1) =~= gnames.skip(i as int + 1));
        }
        let name = &names[i];
        proof {
            assert(name@ == gnames[i as int]);
        }
        let mut keep = true;
        if str_starts_with(name.as_str(), "overrides") {
            let mut client_name = String::new();
            client_name.append("client-");
            client_name.append(name.as_str());
            proof {
                assert(client_name@ =~= "client-"@ + name@);
            }
            if zip_has(z, client_name.as_str()) {
                keep = false;
            }
        }
        if keep && !name_is_dir(name.as_str()) {
            let olen = "overrides/".unicode_len();
            let clen = "client-overrides/".unicode_len();
            let nlen = name.as_str().unicode_len();
            let rel: Option<&str> = if str_starts_with(name.as_str(), "overrides/") {
                Some(name.as_str().substring_char(olen, nlen))
            } else if str_starts_with(name.as_str(), "client-overrides/") {
                Some(name.as_str().substring_char(clen, nlen))
            } else {
                None
            };
            if let Some(rel) = rel {
                let path = match parse_and_sanitize_path(rel) {
                    Some(p) => p,
                    None => {
                        return Err(InstallError::Validation(ValidationError::UnsafePath));
                    },
                };
                let data = match zip_read(z, name.as_str()) {
                    Ok(b) => b,
                    Err(_) => {
                        proof {
                            assert(spec_entry_read(gnames[i as int], gcont.dom()));
                            assert(!greadable.contains(gnames[i as int]));
                            assert(exists|j: int|
                                0 <= j < gnames.len() && #[trigger] spec_entry_read(
                                    gnames[j],
                                    gcont.dom(),
                                ) && !zip_readable(*old(z)).contains(gnames[j])) by {
                                assert(spec_entry_read(gnames[i as int], gcont.dom())
                                    && !zip_readable(*old(z)).contains(gnames[i as int]));
                            }
                        }
                        return Err(InstallError::Filesystem);
                    },
                };
                let item = OverrideFile { path, data };
                let ghost pre = out.deep_view();
                proof {
                    assert(item.deep_view() == SpecOverrideFile {
                        path: spec_join_slash(spec_sanitize(spec_strip_override(name@).unwrap()).unwrap()),
                        data: gcont[name@],
                    });
                }
                out.push(item);
                proof {
                    assert(out.deep_view() =~= pre.push(item.deep_view()));
                    if spec_extract(gnames.skip(i as int + 1), gcont, gcont.dom()) is Ok {
                        let sv = spec_extract(
                            gnames.skip(i as int + 1),
                            gcont,
                            gcont.dom(),
                        ).unwrap();
                        assert(pre + (seq![item.deep_view()] + sv) =~= out.deep_view() + sv);
                    }
                }
            }
        }
        i = i + 1;
    }
    proof {
        assert(gnames.skip(n as int) =~= Seq::<Seq<char>>::empty());
        assert(out.deep_view() + Seq::<SpecOverrideFile>::empty() =~= out.deep_view());
    }
    Ok(out)
}

/// The destination-relative paths of the override files, in order.
pub fn override_paths(files: &Vec<OverrideFile>) -> (r: Vec<String>)
    ensures
        r.deep_view() == files.deep_view().map_values(|f: SpecOverrideFile| f.path),
{
    let n = files.len();
    let mut out: Vec<String> = Vec::new();
    let mut i: usize = 0;
    proof {
        assert(out.deep_view() =~= files.deep_view().map_values(
            |f: SpecOverrideFile| f.path,
        ).take(0));
    }
    while i < n
        invariant
            n == files@.len(),
            0 <= i <= n,
            out.deep_view() == files.deep_view().map_values(|f: SpecOverrideFile| f.path).take(
                i as int,
            ),
        decreases n - i,
    {
        let ghost pre = out.deep_view();
        out.push(files[i].path.clone());
        proof {
            let m = files.deep_view().map_values(|f: SpecOverrideFile| f.path);
            assert(out.deep_view() =~= pre.push(m[i as int]));
            assert(m.take(i as int + 1) =~= m.take(i as int).push(m[i as int]));
        }
        i = i + 1;
    }
    proof {
        assert(files.deep_view().map_values(|f: SpecOverrideFile| f.path).take(n as int)
            =~= files.deep_view().map_values(|f: SpecOverrideFile| f.path));
    }
    out
}

} // verus!

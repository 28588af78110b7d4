use vstd::prelude::*;

use std::io::Read;

use crate::strutil;
use crate::AnalyseError;

verus! {

#[verifier::external_type_specification]
#[verifier::external_body]
#[verifier::reject_recursive_types(T)]
pub struct ExCursor<T>(std::io::Cursor<T>);

#[verifier::external_type_specification]
#[verifier::external_body]
#[verifier::reject_recursive_types(R)]
pub struct ExZipArchive<R>(zip::read::ZipArchive<R>);

#[verifier::external_type_specification]
#[verifier::external_body]
pub struct ExZipError(zip::result::ZipError);

/// What an opened in-memory archive holds, in archive (central-directory)
/// order: one element per entry. An element is `None` for an entry the
/// container cannot deliver (a corrupt local header, an unsupported
/// compression method); otherwise it holds the entry's name and its
/// contents when the entry decompresses to text (`None` when it does
/// not).
pub uninterp spec fn archive_entries(a: zip::read::ZipArchive<std::io::Cursor<Vec<u8>>>) -> Seq<
    Option<(Seq<char>, Option<Seq<char>>)>,
>;

/// The entries that a byte sequence holds when read as an archive, or
/// `None` when the bytes are not a readable archive. Reading an in-memory
/// archive depends on the bytes alone.
pub uninterp spec fn zip_entries_of(bytes: Seq<u8>) -> Option<
    Seq<Option<(Seq<char>, Option<Seq<char>>)>>,
>;

/// Relies on zip::ZipArchive::new over std::io::Cursor: it reads the
/// central directory of an in-memory archive, succeeding exactly on byte
/// sequences that form a readable archive.
#[verifier::external_body]
fn open_archive(bytes: &Vec<u8>) -> (r: Result<
    zip::read::ZipArchive<std::io::Cursor<Vec<u8>>>,
    zip::result::ZipError,
>)
    ensures
        (r is Ok) == (zip_entries_of(bytes@) is Some),
        r matches Ok(a) ==> Some(archive_entries(a)) == zip_entries_of(bytes@),
{
    zip::read::ZipArchive::new(std::io::Cursor::new(bytes.clone()))
}

/// Relies on zip::ZipArchive::len: the number of entries in the archive.
#[verifier::external_body]
fn archive_len(a: &zip::read::ZipArchive<std::io::Cursor<Vec<u8>>>) -> (n: usize)
    ensures
        n == archive_entries(*a).len(),
{
    a.len()
}

/// Relies on zip::ZipArchive::by_index, zip::read::ZipFile::name and
/// std::io::Read::read_to_string: reading entry `i` of the archive
/// succeeds exactly when the container can deliver that entry, and then
/// gives its name and, when the entry decompresses to UTF-8 text, its
/// contents. All of it depends on the archive's bytes alone.
#[verifier::external_body]
fn read_entry(a: &mut zip::read::ZipArchive<std::io::Cursor<Vec<u8>>>, i: usize) -> (r: Result<
    (String, Option<String>),
    zip::result::ZipError,
>)
    requires
        i < archive_entries(*old(a)).len(),
    ensures
        archive_entries(*final(a)) == archive_entries(*old(a)),
        (r is Ok) == (archive_entries(*old(a))[i as int] is Some),
        r matches Ok(e) ==> archive_entries(*old(a))[i as int] == Some(
            (e.0@, e.1.deep_view()),
        ),
{
    let mut f = match a.by_index(i) {
        Ok(f) => f,
        Err(e) => return Err(e),
    };
    let name = f.name().to_string();
    let mut contents = String::new();
    match f.read_to_string(&mut contents) {
        Ok(_) => Ok((name, Some(contents))),
        Err(_) => Ok((name, None)),
    }
}

/// One archive entry as the extractor sees it: its name, and its decoded
/// text when it decodes.
pub struct RawEntry {
    pub name: String,
    pub text: Option<String>,
}

impl View for RawEntry {
    type V = (Seq<char>, Option<Seq<char>>);

    open spec fn view(&self) -> Self::V {
        (self.name@, self.text.deep_view())
    }
}

impl DeepView for RawEntry {
    type V = (Seq<char>, Option<Seq<char>>);

    open spec fn deep_view(&self) -> Self::V {
        self.view()
    }
}

/// The extension of a file name: what follows the last `.`, or `None`
/// when the name holds no `.`.
pub open spec fn ext_of(name: Seq<char>) -> Option<Seq<char>> {
    let i = strutil::last_index_of(name, '.');
    if i < 0 {
        None
    } else {
        Some(name.subrange(i + 1, name.len() as int))
    }
}

/// The extension of a file name: the substring after its last `.`.
pub fn file_extension<'a>(file_name: &'a str) -> (r: Option<&'a str>)
    ensures
        r.deep_view() == ext_of(file_name@),
{
    let len = file_name.unicode_len();
    let mut j = len;
    while j > 0
        invariant
            len == file_name@.len(),
            0 <= j <= len,
            forall|k: int| j <= k < len ==> file_name@[k] != '.',
        decreases j,
    {
        if file_name.get_char(j - 1) == '.' {
            proof {
                strutil::lemma_last_index_of_bounds(file_name@, '.');
            }
            return Some(file_name.substring_char(j, len));
        }
        j = j - 1;
    }
    proof {
        strutil::lemma_last_index_of_bounds(file_name@, '.');
    }
    None
}

/// How an entry is classified in the file-type inventory: its extension,
/// or the fixed marker for a name without one.
pub open spec fn classification_of(name: Seq<char>) -> Seq<char> {
    match ext_of(name) {
        Some(e) => e,
        None => "no extension"@,
    }
}

/// How an entry is classified in the file-type inventory.
pub fn classification(name: &str) -> (r: String)
    ensures
        r@ == classification_of(name@),
{
    match file_extension(name) {
        Some(e) => e.to_owned(),
        None => "no extension".to_owned(),
    }
}

/// The extensions whose entries are read as text into the corpus. This
/// fixed list of common source and markup extensions is this crate's own
/// classification policy: every other classification — archives such as
/// `zip` included, and names without an extension — still joins the
/// inventory, but its content stays out of the corpus.
pub open spec fn is_recognized(ext: Seq<char>) -> bool {
    ||| ext == "rs"@
    ||| ext == "toml"@
    ||| ext == "md"@
    ||| ext == "txt"@
    ||| ext == "py"@
    ||| ext == "js"@
    ||| ext == "ts"@
    ||| ext == "json"@
    ||| ext == "yml"@
    ||| ext == "yaml"@
    ||| ext == "c"@
    ||| ext == "h"@
    ||| ext == "cpp"@
    ||| ext == "hpp"@
    ||| ext == "java"@
    ||| ext == "go"@
    ||| ext == "rb"@
    ||| ext == "sh"@
    ||| ext == "html"@
    ||| ext == "css"@
}

/// Whether entries with this classification are read into the corpus.
pub fn recognized(ext: &str) -> (r: bool)
    ensures
        r == is_recognized(ext@),
{
    ||| strutil::str_eq(ext, "rs")
    ||| strutil::str_eq(ext, "toml")
    ||| strutil::str_eq(ext, "md")
    ||| strutil::str_eq(ext, "txt")
    ||| strutil::str_eq(ext, "py")
    ||| strutil::str_eq(ext, "js")
    ||| strutil::str_eq(ext, "ts")
    ||| strutil::str_eq(ext, "json")
    ||| strutil::str_eq(ext, "yml")
    ||| strutil::str_eq(ext, "yaml")
    ||| strutil::str_eq(ext, "c")
    ||| strutil::str_eq(ext, "h")
    ||| strutil::str_eq(ext, "cpp")
    ||| strutil::str_eq(ext, "hpp")
    ||| strutil::str_eq(ext, "java")
    ||| strutil::str_eq(ext, "go")
    ||| strutil::str_eq(ext, "rb")
    ||| strutil::str_eq(ext, "sh")
    ||| strutil::str_eq(ext, "html")
    ||| strutil::str_eq(ext, "css")
}

/// Whether an entry's text belongs in the corpus.
pub open spec fn included(e: (Seq<char>, Option<Seq<char>>)) -> bool {
    is_recognized(classification_of(e.0))
}

/// The name of the first entry that belongs in the corpus but did not
/// decode as text, if any.
pub open spec fn first_unreadable(es: Seq<(Seq<char>, Option<Seq<char>>)>) -> Option<Seq<char>>
    decreases es.len(),
{
    if es.len() == 0 {
        None
    } else if included(es.first()) && es.first().1 is None {
        Some(es.first().0)
    } else {
        first_unreadable(es.drop_first())
    }
}

/// What one entry contributes to the corpus text.
pub open spec fn contribution(e: (Seq<char>, Option<Seq<char>>)) -> Seq<char> {
    if included(e) {
        match e.1 {
            Some(t) => t,
            None => Seq::<char>::empty(),
        }
    } else {
        Seq::<char>::empty()
    }
}

/// The corpus text: the concatenation, in archive order, of the decoded
/// text of every included entry.
pub open spec fn corpus_text_of(es: Seq<(Seq<char>, Option<Seq<char>>)>) -> Seq<char>
    decreases es.len(),
{
    if es.len() == 0 {
        Seq::<char>::empty()
    } else {
        corpus_text_of(es.drop_last()) + contribution(es.last())
    }
}

/// The file-type inventory: every entry's classification, in order of
/// first occurrence, each exactly once.
pub open spec fn types_list_of(es: Seq<(Seq<char>, Option<Seq<char>>)>) -> Seq<Seq<char>>
    decreases es.len(),
{
    if es.len() == 0 {
        Seq::<Seq<char>>::empty()
    } else {
        let rest = types_list_of(es.drop_last());
        let c = classification_of(es.last().0);
        if rest.contains(c) {
            rest
        } else {
            rest.push(c)
        }
    }
}

/// An archive entry as the container delivers it, or the fixed empty
/// entry where it delivers none; only the delivered reading is ever
/// relevant, since a scan stops at the first undelivered entry.
pub open spec fn entry_or_empty(o: Option<(Seq<char>, Option<Seq<char>>)>) -> (
    Seq<char>,
    Option<Seq<char>>,
) {
    match o {
        Some(e) => e,
        None => (Seq::<char>::empty(), None),
    }
}

/// The delivered reading of an entry list, element by element.
pub open spec fn delivered(es: Seq<Option<(Seq<char>, Option<Seq<char>>)>>) -> Seq<
    (Seq<char>, Option<Seq<char>>),
> {
    es.map_values(|o: Option<(Seq<char>, Option<Seq<char>>)>| entry_or_empty(o))
}

/// How a run over an archive's entries ends.
pub enum ExtractOutcome {
    /// Every entry was delivered, and every included entry decoded.
    Success,
    /// The container could not deliver an entry before any other failure.
    ContainerFailed,
    /// An included entry was delivered but did not decode as text,
    /// before any other failure; `name` is that entry's name.
    EntryUnreadable { name: Seq<char> },
}

/// The outcome of scanning the entries in archive order: the first
/// failure in that order decides, exactly as a single pass meets it.
pub open spec fn scan_outcome(es: Seq<Option<(Seq<char>, Option<Seq<char>>)>>) -> ExtractOutcome
    decreases es.len(),
{
    if es.len() == 0 {
        ExtractOutcome::Success
    } else {
        match es.first() {
            None => ExtractOutcome::ContainerFailed,
            Some(e) => if included(e) && e.1 is None {
                ExtractOutcome::EntryUnreadable { name: e.0 }
            } else {
                scan_outcome(es.drop_first())
            },
        }
    }
}

/// The extracted corpus: the concatenated text of the included entries,
/// and the inventory of every entry's file type.
pub struct Corpus {
    pub text: String,
    pub file_types: Vec<String>,
}

/// Whether the list of strings holds `s`.
fn contains_string(v: &Vec<String>, s: &str) -> (r: bool)
    ensures
        r == v.deep_view().contains(s@),
{
    let mut i: usize = 0;
    while i < v.len()
        invariant
            0 <= i <= v@.len(),
            forall|k: int| 0 <= k < i ==> v.deep_view()[k] != s@,
        decreases v@.len() - i,
    {
        if strutil::str_eq(v[i].as_str(), s) {
            assert(v.deep_view()[i as int] == s@);
            return true;
        }
        i = i + 1;
    }
    assert(forall|k: int| 0 <= k < v.deep_view().len() ==> v.deep_view()[k] != s@);
    false
}

/// Builds the corpus from the entry list in one pass: every entry's
/// classification joins the inventory once, and the text of every
/// included entry joins the corpus, in order; an included entry without
/// text fails the whole extraction.
pub fn build_corpus(entries: &Vec<RawEntry>) -> (r: Result<Corpus, AnalyseError>)
    ensures
        (r is Ok) == (first_unreadable(entries.deep_view()) is None),
        r matches Ok(c) ==> c.text@ == corpus_text_of(entries.deep_view()),
        r matches Ok(c) ==> c.file_types.deep_view() == types_list_of(entries.deep_view()),
        r matches Err(e) ==> (e matches AnalyseError::EntryReadFailed { name } && Some(name@)
            == first_unreadable(entries.deep_view())),
{
    let ghost es = entries.deep_view();
    let mut text = String::new();
    let mut types: Vec<String> = Vec::new();
    let mut i: usize = 0;
    proof {
        assert(es.take(0) =~= Seq::<(Seq<char>, Option<Seq<char>>)>::empty());
        assert(types.deep_view() =~= Seq::<Seq<char>>::empty());
        assert(es.skip(0) =~= es);
    }
    while i < entries.len()
        invariant
            es == entries.deep_view(),
            0 <= i <= es.len(),
            es.len() == entries@.len(),
            text@ == corpus_text_of(es.take(i as int)),
            types.deep_view() == types_list_of(es.take(i as int)),
            first_unreadable(es) == first_unreadable(es.skip(i as int)),
        decreases es.len() - i,
    {
        let entry = &entries[i];
        proof {
            assert(entry@ == es[i as int]);
            assert(es.take(i + 1).drop_last() =~= es.take(i as int));
            assert(es.take(i + 1).last() == es[i as int]);
            assert(es.skip(i as int).first() == es[i as int]);
            assert(es.skip(i as int).drop_first() =~= es.skip(i + 1));
        }
        let class = classification(entry.name.as_str());
        if !contains_string(&types, class.as_str()) {
            let ghost old_types = types.deep_view();
            types.push(class.clone());
            proof {
                assert(types.deep_view() =~= old_types.push(class@));
            }
        }
        if recognized(class.as_str()) {
            match &entry.text {
                Some(t) => {
                    text.append(t.as_str());
                },
                None => {
                    return Err(AnalyseError::EntryReadFailed { name: entry.name.clone() });
                },
            }
        }
        i = i + 1;
    }
    proof {
        assert(es.take(i as int) =~= es);
        assert(es.skip(i as int).len() == 0);
    }
    Ok(Corpus { text, file_types: types })
}

/// Unpacks the archive bytes into the corpus in one pass over the
/// entries, in archive order: every delivered entry's classification
/// joins the inventory, every included entry's text joins the corpus,
/// and the first failure the scan meets — an entry the container cannot
/// deliver, or an included entry that does not decode as text — decides
/// the error.
pub fn extract(bytes: Vec<u8>) -> (r: Result<Corpus, AnalyseError>)
    ensures
        (r is Ok) == (zip_entries_of(bytes@) matches Some(es) && scan_outcome(es) is Success),
        zip_entries_of(bytes@) is None ==> (r matches Err(e) && e is ArchiveCorrupt),
        zip_entries_of(bytes@) matches Some(es) ==> match scan_outcome(es) {
            ExtractOutcome::Success => (r matches Ok(c) && c.text@ == corpus_text_of(
                delivered(es),
            ) && c.file_types.deep_view() == types_list_of(delivered(es))),
            ExtractOutcome::ContainerFailed => (r matches Err(e) && e is ArchiveCorrupt),
            ExtractOutcome::EntryUnreadable { name } => (r matches Err(e) && e
                matches AnalyseError::EntryReadFailed { name: failed } && failed@ == name),
        },
{
    let mut archive = match open_archive(&bytes) {
        Ok(a) => a,
        Err(_) => {
            return Err(AnalyseError::ArchiveCorrupt);
        },
    };
    let ghost es = archive_entries(archive);
    let n = archive_len(&archive);
    let mut text = String::new();
    let mut types: Vec<String> = Vec::new();
    let mut i: usize = 0;
    proof {
        assert(delivered(es).take(0) =~= Seq::<(Seq<char>, Option<Seq<char>>)>::empty());
        assert(types.deep_view() =~= Seq::<Seq<char>>::empty());
        assert(es.skip(0) =~= es);
    }
    while i < n
        invariant
            zip_entries_of(bytes@) == Some(es),
            archive_entries(archive) == es,
            n == es.len(),
            0 <= i <= n,
            scan_outcome(es) == scan_outcome(es.skip(i as int)),
            text@ == corpus_text_of(delivered(es).take(i as int)),
            types.deep_view() == types_list_of(delivered(es).take(i as int)),
        decreases n - i,
    {
        proof {
            assert(es.skip(i as int).first() == es[i as int]);
            assert(es.skip(i as int).drop_first() =~= es.skip(i + 1));
            assert(delivered(es).take(i + 1).drop_last() =~= delivered(es).take(i as int));
            assert(delivered(es).take(i + 1).last() == delivered(es)[i as int]);
            assert(delivered(es)[i as int] == entry_or_empty(es[i as int]));
        }
        match read_entry(&mut archive, i) {
            Err(_) => {
                proof {
                    assert(es[i as int] is None);
                    assert(scan_outcome(es.skip(i as int)) is ContainerFailed);
                }
                return Err(AnalyseError::ArchiveCorrupt);
            },
            Ok((name, contents)) => {
                proof {
                    assert(es[i as int] == Some((name@, contents.deep_view())));
                }
                let class = classification(name.as_str());
                if !contains_string(&types, class.as_str()) {
                    let ghost old_types = types.deep_view();
                    types.push(class.clone());
                    proof {
                        assert(types.deep_view() =~= old_types.push(class@));
                    }
                }
                if recognized(class.as_str()) {
                    match contents {
                        Some(t) => {
                            text.append(t.as_str());
                        },
                        None => {
                            proof {
                                assert(scan_outcome(es.skip(i as int))
                                    == (ExtractOutcome::EntryUnreadable { name: name@ }));
                            }
                            return Err(AnalyseError::EntryReadFailed { name });
                        },
                    }
                } else {
                    proof {
                        assert(contribution(delivered(es)[i as int]) =~= Seq::<char>::empty());
                        assert(text@ =~= corpus_text_of(delivered(es).take(i + 1)));
                    }
                }
            },
        }
        i = i + 1;
    }
    proof {
        assert(es.skip(i as int).len() == 0);
        assert(scan_outcome(es) is Success);
        assert(delivered(es).take(i as int) =~= delivered(es));
    }
    Ok(Corpus { text, file_types: types })
}

/// Every entry contributes exactly one classification to the inventory,
/// whether or not its text joins the corpus: the inventory holds the
/// classification of every entry, holds nothing else, and holds no
/// classification twice.
pub proof fn lemma_types_inventory(es: Seq<(Seq<char>, Option<Seq<char>>)>)
    ensures
        forall|i: int|
            0 <= i < es.len() ==> types_list_of(es).contains(#[trigger] classification_of(
                es[i].0,
            )),
        forall|j: int, k: int|
            0 <= j < k < types_list_of(es).len() ==> types_list_of(es)[j] != types_list_of(es)[k],
        forall|j: int|
            0 <= j < types_list_of(es).len() ==> exists|i: int|
                0 <= i < es.len() && #[trigger] types_list_of(es)[j] == classification_of(es[i].0),
    decreases es.len(),
{
    if es.len() > 0 {
        lemma_types_inventory(es.drop_last());
        let rest = types_list_of(es.drop_last());
        let c = classification_of(es.last().0);
        let full = types_list_of(es);
        assert forall|i: int|
            0 <= i < es.len() implies full.contains(#[trigger] classification_of(es[i].0)) by {
            if i < es.len() - 1 {
                assert(es.drop_last()[i] == es[i]);
                let ci = classification_of(es[i].0);
                assert(rest.contains(ci));
                let w = choose|w: int| 0 <= w < rest.len() && rest[w] == ci;
                assert(full[w] == ci);
            } else {
                if rest.contains(c) {
                    let w = choose|w: int| 0 <= w < rest.len() && rest[w] == c;
                    assert(full[w] == c);
                } else {
                    assert(full[full.len() - 1] == c);
                }
            }
        }
        assert forall|j: int, k: int|
            0 <= j < k < full.len() implies full[j] != full[k] by {
            if !rest.contains(c) && k == full.len() - 1 {
                assert(full[j] == rest[j]);
                assert(!rest.contains(full[k]));
            } else {
                assert(full[j] == rest[j]);
                assert(full[k] == rest[k]);
            }
        }
        assert forall|j: int|
            0 <= j < full.len() implies exists|i: int|
            0 <= i < es.len() && #[trigger] full[j] == classification_of(es[i].0) by {
            if j < rest.len() {
                assert(rest[j] == full[j]);
                let w = choose|w: int|
                    0 <= w < es.drop_last().len() && rest[j] == classification_of(
                        es.drop_last()[w].0,
                    );
                assert(es.drop_last()[w] == es[w]);
                assert(full[j] == classification_of(es[w].0));
            } else {
                assert(full[j] == c);
                assert(es.last() == es[es.len() - 1]);
                assert(full[j] == classification_of(es[es.len() - 1].0));
            }
        }
    }
}

} // verus!

//! Sidecar records: the TOML text that describes one page, and the listing
//! of a directory that is put together from them.

use crate::content_path::{joined, ContentPath};
use crate::error::{failure_with, ErrorKind, ErrorView, SiteError};
use crate::names::{file_stem, is_sidecar, is_sidecar_name, stem, SEPARATOR};
use crate::text::{text_from_utf8, text_of};
use vstd::prelude::*;
use vstd::string::StringExecFns;

verus! {

/// `toml::map::Map`, the table that `toml` reads a document into.
#[verifier::external_type_specification]
#[verifier::external_body]
#[verifier::reject_recursive_types(K)]
#[verifier::reject_recursive_types(V)]
pub struct ExTomlMap<K, V>(toml::map::Map<K, V>);

/// `toml::Value`, one value of a TOML document.
#[verifier::external_type_specification]
#[verifier::external_body]
pub struct ExTomlValue(toml::Value);

/// What the library reads of one value of a table.
pub enum Field {
    /// A string.
    Text(String),
    /// A date or time, in the text that `toml` writes for it.
    Date(String),
    /// A value of any other kind.
    Other,
}

/// A field by its contents.
pub enum FieldView {
    Text(Seq<char>),
    Date(Seq<char>),
    Other,
}

impl View for Field {
    type V = FieldView;

    open spec fn view(&self) -> FieldView {
        match self {
            Field::Text(text) => FieldView::Text(text@),
            Field::Date(text) => FieldView::Date(text@),
            Field::Other => FieldView::Other,
        }
    }
}

/// The top-level keys of a table and what each holds: a string by its text,
/// a date or time by the text that `toml` writes for it, a value of any
/// other kind as `Other`.
pub uninterp spec fn table_fields(table: toml::map::Map<String, toml::Value>) -> Map<
    Seq<char>,
    FieldView,
>;

/// What `toml` makes of `text`: the top-level fields of the document it
/// spells, or the report in words of why it spells none.
pub uninterp spec fn toml_document(text: Seq<char>) -> Result<
    Map<Seq<char>, FieldView>,
    Seq<char>,
>;

/// `toml::from_str`, read into a table. Not proved, but taken from `toml`:
/// the outcome depends on the text alone, and is the table of the document
/// that the text spells, or the error in its own words.
#[verifier::external_body]
fn parse_table(text: &str) -> (parsed: Result<toml::map::Map<String, toml::Value>, String>)
    ensures
        match parsed {
            Ok(table) => toml_document(text@) == Ok::<Map<Seq<char>, FieldView>, Seq<char>>(
                table_fields(table),
            ),
            Err(report) => toml_document(text@) == Err::<Map<Seq<char>, FieldView>, Seq<char>>(
                report@,
            ),
        },
{
    toml::from_str::<toml::map::Map<String, toml::Value>>(text).map_err(|error| error.to_string())
}

/// `toml::map::Map::get`, the value found handed out as a `Field`. Not
/// proved, but taken from `toml`: a value is found exactly under the keys
/// that the table holds, and it is the value held there.
#[verifier::external_body]
fn table_field(table: &toml::map::Map<String, toml::Value>, key: &str) -> (found: Option<Field>)
    ensures
        found is Some <==> table_fields(*table).contains_key(key@),
        found matches Some(field) ==> field@ == table_fields(*table)[key@],
{
    match table.get(key) {
        None => None,
        Some(toml::Value::String(text)) => Some(Field::Text(text.clone())),
        Some(toml::Value::Datetime(date)) => Some(Field::Date(date.to_string())),
        Some(_) => Some(Field::Other),
    }
}

/// What a sidecar says of its page.
#[derive(Debug, PartialEq, Eq)]
pub struct PageMetadata {
    pub title: String,
    /// The day of publication, in the text that TOML writes for it.
    pub date: String,
    pub short_description: String,
}

/// A record by its contents.
pub struct MetadataView {
    pub title: Seq<char>,
    pub date: Seq<char>,
    pub short_description: Seq<char>,
}

impl View for PageMetadata {
    type V = MetadataView;

    open spec fn view(&self) -> MetadataView {
        MetadataView {
            title: self.title@,
            date: self.date@,
            short_description: self.short_description@,
        }
    }
}

/// The text under `key` where the table holds a string there, else what is
/// wrong with the field, in words.
pub open spec fn text_field(fields: Map<Seq<char>, FieldView>, key: Seq<char>) -> Result<
    Seq<char>,
    Seq<char>,
> {
    if !fields.contains_key(key) {
        Err("missing field: "@ + key)
    } else {
        match fields[key] {
            FieldView::Text(text) => Ok(text),
            _ => Err("field is not a string: "@ + key),
        }
    }
}

/// The date under `key` where the table holds a date or time there, else
/// what is wrong with the field, in words.
pub open spec fn date_field(fields: Map<Seq<char>, FieldView>, key: Seq<char>) -> Result<
    Seq<char>,
    Seq<char>,
> {
    if !fields.contains_key(key) {
        Err("missing field: "@ + key)
    } else {
        match fields[key] {
            FieldView::Date(text) => Ok(text),
            _ => Err("field is not a date: "@ + key),
        }
    }
}

/// The record that a table holds: a string `title`, a date `date` and a
/// string `short_description`; other keys are passed over. Where one of the
/// three is missing or of another kind, the first such fault in words.
pub open spec fn record_of(fields: Map<Seq<char>, FieldView>) -> Result<MetadataView, Seq<char>> {
    match text_field(fields, "title"@) {
        Err(fault) => Err(fault),
        Ok(title) => match date_field(fields, "date"@) {
            Err(fault) => Err(fault),
            Ok(date) => match text_field(fields, "short_description"@) {
                Err(fault) => Err(fault),
                Ok(short_description) => Ok(MetadataView { title, date, short_description }),
            },
        },
    }
}

/// The record that a sidecar's text holds, or why it holds none.
pub open spec fn record_in(text: Seq<char>) -> Result<MetadataView, Seq<char>> {
    match toml_document(text) {
        Ok(fields) => record_of(fields),
        Err(report) => Err(report),
    }
}

/// Whether an outcome in the library's types is the outcome `want`.
pub open spec fn same_outcome<T: View>(
    got: Result<T, String>,
    want: Result<T::V, Seq<char>>,
) -> bool {
    match got {
        Ok(value) => want == Ok::<T::V, Seq<char>>(value@),
        Err(fault) => want == Err::<T::V, Seq<char>>(fault@),
    }
}

/// The string under `key`.
fn read_text(table: &toml::map::Map<String, toml::Value>, key: &str) -> (text: Result<
    String,
    String,
>)
    ensures
        same_outcome(text, text_field(table_fields(*table), key@)),
{
    match table_field(table, key) {
        None => {
            let mut fault = String::from_str("missing field: ");
            fault.append(key);
            Err(fault)
        },
        Some(Field::Text(text)) => Ok(text),
        Some(_) => {
            let mut fault = String::from_str("field is not a string: ");
            fault.append(key);
            Err(fault)
        },
    }
}

/// The date under `key`.
fn read_date(table: &toml::map::Map<String, toml::Value>, key: &str) -> (text: Result<
    String,
    String,
>)
    ensures
        same_outcome(text, date_field(table_fields(*table), key@)),
{
    match table_field(table, key) {
        None => {
            let mut fault = String::from_str("missing field: ");
            fault.append(key);
            Err(fault)
        },
        Some(Field::Date(text)) => Ok(text),
        Some(_) => {
            let mut fault = String::from_str("field is not a date: ");
            fault.append(key);
            Err(fault)
        },
    }
}

/// Reads the record out of a parsed table.
pub fn metadata_from_table(table: &toml::map::Map<String, toml::Value>) -> (record: Result<
    PageMetadata,
    String,
>)
    ensures
        same_outcome(record, record_of(table_fields(*table))),
{
    let title = match read_text(table, "title") {
        Ok(title) => title,
        Err(fault) => {
            return Err(fault);
        },
    };
    let date = match read_date(table, "date") {
        Ok(date) => date,
        Err(fault) => {
            return Err(fault);
        },
    };
    let short_description = match read_text(table, "short_description") {
        Ok(short_description) => short_description,
        Err(fault) => {
            return Err(fault);
        },
    };
    Ok(PageMetadata { title, date, short_description })
}

/// Reads the record out of a sidecar's text.
pub fn parse_metadata(text: &str) -> (record: Result<PageMetadata, String>)
    ensures
        same_outcome(record, record_in(text@)),
{
    match parse_table(text) {
        Ok(table) => metadata_from_table(&table),
        Err(report) => Err(report),
    }
}

/// One row of a directory listing.
#[derive(Debug, PartialEq, Eq)]
pub struct EnumeratedEntry {
    pub meta: PageMetadata,
    /// The page's path as a URL shows it, relative to the content root.
    pub path: String,
}

/// A row by its contents.
pub struct EntryView {
    pub meta: MetadataView,
    pub path: Seq<char>,
}

impl View for EnumeratedEntry {
    type V = EntryView;

    open spec fn view(&self) -> EntryView {
        EntryView { meta: self.meta@, path: self.path@ }
    }
}

/// One file that a scan of a directory came upon, with what came of reading
/// it as text: the text, or the failure in words.
#[derive(Debug, PartialEq, Eq)]
pub struct SidecarFile {
    /// The file's name, without any directory before it.
    pub name: Vec<u8>,
    pub content: Result<String, String>,
}

/// A scanned file by its contents.
pub struct SidecarView {
    pub name: Seq<u8>,
    pub content: Result<Seq<char>, Seq<char>>,
}

impl View for SidecarFile {
    type V = SidecarView;

    open spec fn view(&self) -> SidecarView {
        SidecarView {
            name: self.name@,
            content: match self.content {
                Ok(text) => Ok(text@),
                Err(report) => Err(report@),
            },
        }
    }
}

/// The rows of a listing by their contents.
pub open spec fn rows_view(entries: Seq<EnumeratedEntry>) -> Seq<EntryView> {
    entries.map_values(|entry: EnumeratedEntry| entry@)
}

/// The files of a scan by their contents.
pub open spec fn files_view(files: Seq<SidecarFile>) -> Seq<SidecarView> {
    files.map_values(|file: SidecarFile| file@)
}

/// The URL path of the page that the sidecar `name` in the directory `dir`
/// describes: the directory's segments and the sidecar's stem, where that is
/// text at all.
pub open spec fn url_path(dir: Seq<Seq<u8>>, name: Seq<u8>) -> Option<Seq<char>> {
    text_of(joined(dir.push(stem(name))))
}

/// What one scanned file gives to a listing of `dir`: nothing where it is no
/// sidecar; a failure where it could not be read or holds no record; else its
/// row, or nothing where its name is no text.
pub open spec fn row_of(dir: Seq<Seq<u8>>, file: SidecarView) -> Result<
    Option<EntryView>,
    ErrorView,
> {
    if !is_sidecar(file.name) {
        Ok(None)
    } else {
        match file.content {
            Err(report) => Err(
                ErrorView {
                    kind: ErrorKind::ReadFailure,
                    message: "Failed to read file: "@ + report,
                },
            ),
            Ok(text) => match record_in(text) {
                Err(report) => Err(ErrorView { kind: ErrorKind::ParseFailure, message: report }),
                Ok(meta) => match url_path(dir, file.name) {
                    None => Ok(None),
                    Some(path) => Ok(Some(EntryView { meta, path })),
                },
            },
        }
    }
}

/// The listing of `dir` that the scanned files give: the rows of the
/// sidecars in the order of the scan, or the failure of the first file that
/// fails.
pub open spec fn listed(dir: Seq<Seq<u8>>, files: Seq<SidecarView>) -> Result<
    Seq<EntryView>,
    ErrorView,
>
    decreases files.len(),
{
    if files.len() == 0 {
        Ok(Seq::empty())
    } else {
        match listed(dir, files.drop_last()) {
            Err(error) => Err(error),
            Ok(rows) => match row_of(dir, files.last()) {
                Err(error) => Err(error),
                Ok(None) => Ok(rows),
                Ok(Some(row)) => Ok(rows.push(row)),
            },
        }
    }
}

/// The URL path of the page that the sidecar `name` in `dir` describes.
pub fn page_url(dir: &ContentPath, name: &[u8]) -> (path: Option<String>)
    ensures
        match path {
            Some(text) => url_path(dir@, name@) == Some(text@),
            None => url_path(dir@, name@) is None,
        },
{
    let front = file_stem(name);
    let mut bytes = dir.to_bytes();
    if !dir.is_root() {
        bytes.push(SEPARATOR);
    }
    let ghost before = bytes@;
    let mut i: usize = 0;
    while i < front.len()
        invariant
            i <= front@.len(),
            bytes@ == before + front@.take(i as int),
        decreases front@.len() - i,
    {
        bytes.push(front[i]);
        i = i + 1;
        assert(front@.take(i as int) =~= front@.take(i - 1).push(front@[i - 1]));
    }
    proof {
        assert(front@.take(i as int) =~= front@);
        let whole = dir@.push(front@);
        assert(whole.drop_last() =~= dir@);
        assert(bytes@ =~= joined(whole));
    }
    text_from_utf8(bytes)
}

/// What one scanned file gives to a listing of `dir`.
pub fn read_row(dir: &ContentPath, file: &SidecarFile) -> (row: Result<
    Option<EnumeratedEntry>,
    SiteError,
>)
    ensures
        match row {
            Ok(Some(entry)) => row_of(dir@, file@) == Ok::<Option<EntryView>, ErrorView>(
                Some(entry@),
            ),
            Ok(None) => row_of(dir@, file@) == Ok::<Option<EntryView>, ErrorView>(None),
            Err(error) => row_of(dir@, file@) == Err::<Option<EntryView>, ErrorView>(error@),
        },
{
    if !is_sidecar_name(file.name.as_slice()) {
        return Ok(None);
    }
    let text = match &file.content {
        Ok(text) => text,
        Err(report) => {
            return Err(
                failure_with(ErrorKind::ReadFailure, "Failed to read file: ", report.as_str()),
            );
        },
    };
    let meta = match parse_metadata(text.as_str()) {
        Ok(meta) => meta,
        Err(report) => {
            return Err(SiteError { kind: ErrorKind::ParseFailure, message: report });
        },
    };
    match page_url(dir, file.name.as_slice()) {
        Some(path) => Ok(Some(EnumeratedEntry { meta, path })),
        None => Ok(None),
    }
}

/// Lists the pages of the directory `dir` from the files that a scan of it
/// came upon, in the order of the scan. Files that are no sidecars are passed
/// over, and so is a sidecar whose name is no text; a sidecar that could not
/// be read or holds no valid record fails the whole listing.
pub fn enumerate_pages(dir: &ContentPath, files: &Vec<SidecarFile>) -> (listing: Result<
    Vec<EnumeratedEntry>,
    SiteError,
>)
    ensures
        match listing {
            Ok(entries) => listed(dir@, files_view(files@)) == Ok::<Seq<EntryView>, ErrorView>(
                rows_view(entries@),
            ),
            Err(error) => listed(dir@, files_view(files@)) == Err::<Seq<EntryView>, ErrorView>(
                error@,
            ),
        },
{
    let mut entries: Vec<EnumeratedEntry> = Vec::new();
    let ghost views = files_view(files@);
    let mut i: usize = 0;
    proof {
        assert(rows_view(entries@) =~= Seq::<EntryView>::empty());
    }
    while i < files.len()
        invariant
            i <= files@.len(),
            views == files_view(files@),
            listed(dir@, views.take(i as int)) == Ok::<Seq<EntryView>, ErrorView>(
                rows_view(entries@),
            ),
        decreases files@.len() - i,
    {
        let ghost seen = views.take(i + 1);
        proof {
            assert(seen.drop_last() =~= views.take(i as int));
            assert(seen.last() == files@[i as int]@);
        }
        match read_row(dir, &files[i]) {
            Err(error) => {
                proof {
                    lemma_failure_stays(dir@, views, i + 1);
                }
                return Err(error);
            },
            Ok(None) => {},
            Ok(Some(entry)) => {
                let ghost before = rows_view(entries@);
                entries.push(entry);
                assert(rows_view(entries@) =~= before.push(entry@));
            },
        }
        i = i + 1;
    }
    proof {
        assert(views.take(i as int) =~= views);
    }
    Ok(entries)
}

/// A listing that has failed on the first `n` files fails in the same way on
/// all of them.
pub proof fn lemma_failure_stays(dir: Seq<Seq<u8>>, files: Seq<SidecarView>, n: int)
    requires
        0 <= n <= files.len(),
        listed(dir, files.take(n)) is Err,
    ensures
        listed(dir, files) == listed(dir, files.take(n)),
    decreases files.len() - n,
{
    if n < files.len() {
        assert(files.take(n + 1).drop_last() =~= files.take(n));
        lemma_failure_stays(dir, files, n + 1);
    } else {
        assert(files.take(n) =~= files);
    }
}

/// A listing fails exactly where some file fails, and then with the failure
/// of the first such file in the order of the scan.
pub proof fn lemma_first_failure(dir: Seq<Seq<u8>>, files: Seq<SidecarView>)
    ensures
        match listed(dir, files) {
            Err(error) => exists|k: int|
                0 <= k < files.len() && row_of(dir, #[trigger] files[k]) == Err::<
                    Option<EntryView>,
                    ErrorView,
                >(error) && forall|j: int| 0 <= j < k ==> row_of(dir, #[trigger] files[j]) is Ok,
            Ok(rows) => rows.len() <= files.len() && forall|k: int|
                0 <= k < files.len() ==> row_of(dir, #[trigger] files[k]) is Ok,
        },
    decreases files.len(),
{
    if files.len() > 0 {
        let front = files.drop_last();
        lemma_first_failure(dir, front);
        assert forall|j: int| 0 <= j < front.len() implies #[trigger] front[j] == files[j] by {}
        match listed(dir, front) {
            Err(error) => {
                let k = choose|k: int|
                    0 <= k < front.len() && row_of(dir, #[trigger] front[k]) == Err::<
                        Option<EntryView>,
                        ErrorView,
                    >(error) && forall|j: int|
                        0 <= j < k ==> row_of(dir, #[trigger] front[j]) is Ok;
                assert(files[k] == front[k]);
                assert forall|j: int| 0 <= j < k implies row_of(dir, #[trigger] files[j]) is Ok by {
                    assert(files[j] == front[j]);
                }
            },
            Ok(rows) => {
                let last = files.len() - 1;
                assert forall|j: int| 0 <= j < last implies row_of(
                    dir,
                    #[trigger] files[j],
                ) is Ok by {
                    assert(files[j] == front[j]);
                }
                if row_of(dir, files.last()) is Err {
                    assert(files[last] == files.last());
                }
            },
        }
    }
}

/// A sidecar whose text holds no valid record fails the whole listing as a
/// parse failure, where every sidecar of the scan could be read.
pub proof fn lemma_invalid_sidecar_fails(dir: Seq<Seq<u8>>, files: Seq<SidecarView>, k: int)
    requires
        0 <= k < files.len(),
        is_sidecar(files[k].name),
        files[k].content matches Ok(text) && record_in(text) is Err,
        forall|j: int| 0 <= j < files.len() && is_sidecar(files[j].name) ==> files[j].content is Ok,
    ensures
        listed(dir, files) matches Err(error) && error.kind == ErrorKind::ParseFailure,
{
    lemma_first_failure(dir, files);
    assert(row_of(dir, files[k]) is Err);
}

/// A file that gives no row and no failure can be left out of the scan: the
/// listing of the others is the same.
pub proof fn lemma_skipped_file(dir: Seq<Seq<u8>>, files: Seq<SidecarView>, k: int)
    requires
        0 <= k < files.len(),
        row_of(dir, files[k]) == Ok::<Option<EntryView>, ErrorView>(None),
    ensures
        listed(dir, files) == listed(dir, files.remove(k)),
    decreases files.len(),
{
    let front = files.drop_last();
    if k == files.len() - 1 {
        assert(files.remove(k) =~= front);
    } else {
        assert(front[k] == files[k]);
        lemma_skipped_file(dir, front, k);
        assert(files.remove(k).drop_last() =~= front.remove(k));
        assert(files.remove(k).last() == files.last());
    }
}

/// A readable sidecar with a valid record whose name is no text is skipped:
/// the listing is that of the other files.
pub proof fn lemma_unnamed_sidecar_is_skipped(dir: Seq<Seq<u8>>, files: Seq<SidecarView>, k: int)
    requires
        0 <= k < files.len(),
        is_sidecar(files[k].name),
        files[k].content matches Ok(text) && record_in(text) is Ok,
        url_path(dir, files[k].name) is None,
    ensures
        listed(dir, files) == listed(dir, files.remove(k)),
{
    lemma_skipped_file(dir, files, k);
}

} // verus!

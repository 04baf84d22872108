//! Classifying, scanning and summarising the files of a workspace.
use vstd::prelude::*;
use crate::model::{
    ImportFileType, ImportManifestFile, ImportManifestFileView, ImportSummary, ScannedFile,
    ScannedFileView, scanned_view,
};
use crate::paths::{
    extension_of, file_name_of, path_eq, path_extension, path_file_name, path_strip_prefix,
    same_path, strip_prefix_of,
};
use crate::text::{
    chars_eq, chars_le, chars_le_exec, chars_of, lemma_chars_le_total, lemma_chars_le_trans,
    lower_all, lower_chars, replace_char, replace_char_exec, string_of,
};
use vstd::string::StringExecFns;

verus! {

broadcast use vstd::seq_lib::group_to_multiset_ensures;

/// The kind of a file with the given extension: `.ipt` parts, `.iam` assemblies, `.idw` and
/// `.dwg` drawings, anything else an attachment; case does not matter.
pub open spec fn classify_extension(ext: Option<Seq<char>>) -> ImportFileType {
    match ext {
        Some(e) => {
            let l = lower_all(e);
            if l == "ipt"@ {
                ImportFileType::Part
            } else if l == "iam"@ {
                ImportFileType::Assembly
            } else if l == "idw"@ || l == "dwg"@ {
                ImportFileType::Drawing
            } else {
                ImportFileType::Attachment
            }
        },
        None => ImportFileType::Attachment,
    }
}

proof fn lemma_lower_all_idempotent(e: Seq<char>)
    ensures
        lower_all(lower_all(e)) == lower_all(e),
{
    assert forall|i: int| 0 <= i < e.len() implies #[trigger] lower_all(lower_all(e))[i]
        == lower_all(e)[i] by {
        let c = e[i];
        if 65 <= c as u32 <= 90 {
            let d = ((c as u32) + 32) as char;
            assert(d as u32 == (c as u32) + 32);
        }
    }
    assert(lower_all(lower_all(e)) =~= lower_all(e));
}

/// How a file is classified by its extension, whatever its case: the kind of `e` is the kind
/// of `e` lower-cased; `ipt` (in any case) is a part, `iam` an assembly, `idw` and `dwg`
/// drawings, and any other extension, or none, an attachment.
pub proof fn lemma_classification(e: Seq<char>)
    ensures
        classify_extension(Some(e)) == classify_extension(Some(lower_all(e))),
        classify_extension(Some(e)) == ImportFileType::Part <==> lower_all(e) == "ipt"@,
        classify_extension(Some(e)) == ImportFileType::Assembly <==> lower_all(e) == "iam"@,
        classify_extension(Some(e)) == ImportFileType::Drawing <==> (lower_all(e) == "idw"@
            || lower_all(e) == "dwg"@),
        classify_extension(Some(e)) == ImportFileType::Attachment <==> !(lower_all(e) == "ipt"@
            || lower_all(e) == "iam"@ || lower_all(e) == "idw"@ || lower_all(e) == "dwg"@),
        classify_extension(None) == ImportFileType::Attachment,
{
    lemma_lower_all_idempotent(e);
    reveal_strlit("ipt");
    reveal_strlit("iam");
    reveal_strlit("idw");
    reveal_strlit("dwg");
    assert("ipt"@[1] != "iam"@[1] && "ipt"@[1] != "idw"@[1] && "ipt"@[0] != "dwg"@[0]);
    assert("iam"@[1] != "idw"@[1] && "iam"@[0] != "dwg"@[0]);
}

pub open spec fn classify_spec(path: Seq<char>) -> ImportFileType {
    classify_extension(path_extension(path))
}

/// Hidden files (`.name`) and editor temporaries (`~name`).
pub open spec fn hidden_or_temp_name(name: Seq<char>) -> bool {
    name.len() > 0 && (name[0] == '.' || name[0] == '~')
}

pub open spec fn skip_spec(path: Seq<char>) -> bool {
    match path_file_name(path) {
        Some(name) => hidden_or_temp_name(name),
        None => false,
    }
}

pub open spec fn has_extension_spec(path: Seq<char>, expected: Seq<char>) -> bool {
    match path_extension(path) {
        Some(e) => lower_all(e) == lower_all(expected),
        None => false,
    }
}

/// A relative path written with `/` separators.
pub open spec fn normalized_relative(path: Seq<char>) -> Seq<char> {
    replace_char(path, '\\', '/')
}

/// `path` relative to `root`, with `/` separators; `path` itself where `root` is no prefix.
pub open spec fn relative_display(root: Seq<char>, path: Seq<char>) -> Seq<char> {
    match path_strip_prefix(path, root) {
        Some(rel) => normalized_relative(rel),
        None => path,
    }
}

pub open spec fn opt_str_view(o: Option<&str>) -> Option<Seq<char>> {
    match o {
        Some(s) => Some(s@),
        None => None,
    }
}

/// The kind of a file with the given extension (as `Path::extension` gives it).
pub fn classify_extension_of(ext: Option<&str>) -> (t: ImportFileType)
    ensures
        t == classify_extension(opt_str_view(ext)),
{
    match ext {
        Some(e) => {
            let l = lower_chars(&chars_of(e));
            if chars_eq(&l, &chars_of("ipt")) {
                ImportFileType::Part
            } else if chars_eq(&l, &chars_of("iam")) {
                ImportFileType::Assembly
            } else if chars_eq(&l, &chars_of("idw")) || chars_eq(&l, &chars_of("dwg")) {
                ImportFileType::Drawing
            } else {
                ImportFileType::Attachment
            }
        },
        None => ImportFileType::Attachment,
    }
}

/// The kind of the file at `path`, by its extension.
pub fn classify_file(path: &str) -> (t: ImportFileType)
    ensures
        t == classify_spec(path@),
{
    let ext = extension_of(path);
    match &ext {
        Some(e) => classify_extension_of(Some(e.as_str())),
        None => classify_extension_of(None),
    }
}

/// Whether a file name (as `Path::file_name` gives it) marks a hidden or temporary file.
pub fn is_hidden_or_temp(name: Option<&str>) -> (r: bool)
    ensures
        r == match opt_str_view(name) {
            Some(n) => hidden_or_temp_name(n),
            None => false,
        },
{
    match name {
        Some(n) => {
            let c = chars_of(n);
            c.len() > 0 && (c[0] == '.' || c[0] == '~')
        },
        None => false,
    }
}

/// Whether the file at `path` is hidden or a temporary and so left out of an import.
pub fn should_skip_file(path: &str) -> (r: bool)
    ensures
        r == skip_spec(path@),
{
    let name = file_name_of(path);
    match &name {
        Some(n) => is_hidden_or_temp(Some(n.as_str())),
        None => is_hidden_or_temp(None),
    }
}

/// Whether an extension (as `Path::extension` gives it) is `expected`, ignoring ASCII case.
pub fn extension_matches(ext: Option<&str>, expected: &str) -> (r: bool)
    ensures
        r == match opt_str_view(ext) {
            Some(e) => lower_all(e) == lower_all(expected@),
            None => false,
        },
{
    match ext {
        Some(e) => chars_eq(&lower_chars(&chars_of(e)), &lower_chars(&chars_of(expected))),
        None => false,
    }
}

/// Whether the extension of `path` is `expected`, ignoring ASCII case.
pub fn has_extension(path: &str, expected: &str) -> (r: bool)
    ensures
        r == has_extension_spec(path@, expected@),
{
    let ext = extension_of(path);
    match &ext {
        Some(e) => extension_matches(Some(e.as_str()), expected),
        None => extension_matches(None, expected),
    }
}

/// Writes a relative path with `/` separators.
pub fn normalize_relative_path(path: &str) -> (r: String)
    ensures
        r@ == normalized_relative(path@),
{
    string_of(&replace_char_exec(&chars_of(path), '\\', '/'))
}

/// The path to display: the part left after stripping the root (as `Path::strip_prefix`
/// gives it) with `/` separators, else the full path.
pub fn relative_or_full(stripped: Option<&str>, path: &str) -> (r: String)
    ensures
        r@ == match opt_str_view(stripped) {
            Some(rel) => normalized_relative(rel),
            None => path@,
        },
{
    match stripped {
        Some(rel) => normalize_relative_path(rel),
        None => path.to_owned(),
    }
}

/// `path` relative to `root` for display.
pub fn relative_display_path(root: &str, path: &str) -> (r: String)
    ensures
        r@ == relative_display(root@, path@),
{
    let stripped = strip_prefix_of(path, root);
    match &stripped {
        Some(rel) => relative_or_full(Some(rel.as_str()), path),
        None => relative_or_full(None, path),
    }
}

/// One entry met while walking a directory tree.
pub struct ScanEntry {
    pub path: String,
    pub is_file: bool,
    /// The file's size, or the text of the error met reading its metadata.
    pub size: Result<u64, String>,
}

pub struct ScanEntryView {
    pub path: Seq<char>,
    pub is_file: bool,
    pub size: Result<u64, Seq<char>>,
}

impl View for ScanEntry {
    type V = ScanEntryView;

    open spec fn view(&self) -> ScanEntryView {
        ScanEntryView {
            path: self.path@,
            is_file: self.is_file,
            size: match self.size {
                Ok(n) => Ok(n),
                Err(e) => Err(e@),
            },
        }
    }
}

/// The walk's items in walk order: entries, or the text of an error that ended the walk.
pub open spec fn walk_view(items: Seq<Result<ScanEntry, String>>) -> Seq<Result<ScanEntryView, Seq<char>>> {
    items.map_values(
        |i: Result<ScanEntry, String>|
            match i {
                Ok(e) => Ok(e@),
                Err(m) => Err(m@),
            },
    )
}

/// Whether a workspace entry belongs in the import.
pub open spec fn scan_eligible(e: ScanEntryView, ipj_path: Seq<char>) -> bool {
    e.is_file && !path_eq(e.path, ipj_path) && !skip_spec(e.path)
}

/// The scanned file made of a workspace entry of the given size.
pub open spec fn scanned_entry(e: ScanEntryView, root: Seq<char>, size: u64) -> ScannedFileView {
    ScannedFileView {
        absolute_path: e.path,
        manifest: ImportManifestFileView {
            path: normalized_relative(
                match path_strip_prefix(e.path, root) {
                    Some(rel) => rel,
                    None => e.path,
                },
            ),
            file_type: classify_spec(e.path),
            size_bytes: size,
        },
    }
}

/// The files of a workspace walk in walk order, or the first error, as scanning meets them.
pub open spec fn scan_collect(
    items: Seq<Result<ScanEntryView, Seq<char>>>,
    root: Seq<char>,
    ipj_path: Seq<char>,
) -> Result<Seq<ScannedFileView>, Seq<char>>
    decreases items.len(),
{
    if items.len() == 0 {
        Ok(Seq::empty())
    } else {
        match scan_collect(items.drop_last(), root, ipj_path) {
            Err(m) => Err(m),
            Ok(files) => match items.last() {
                Err(w) => Err("workspace를 스캔하지 못했습니다: "@ + w),
                Ok(e) => if !scan_eligible(e, ipj_path) {
                    Ok(files)
                } else {
                    match e.size {
                        Err(m) => Err("파일 메타데이터를 읽지 못했습니다: "@ + m),
                        Ok(n) => Ok(files.push(scanned_entry(e, root, n))),
                    }
                },
            },
        }
    }
}

/// Whether `a` may come before `b` in the manifest.
pub open spec fn path_le(a: ScannedFileView, b: ScannedFileView) -> bool {
    chars_le(a.manifest.path, b.manifest.path)
}

/// `x` placed after the last element of `s` whose path is not above its own.
pub open spec fn insert_by_path(s: Seq<ScannedFileView>, x: ScannedFileView) -> Seq<ScannedFileView>
    decreases s.len(),
{
    if s.len() == 0 {
        seq![x]
    } else if path_le(s.last(), x) {
        s.push(x)
    } else {
        insert_by_path(s.drop_last(), x).push(s.last())
    }
}

/// `s` in manifest-path order, equal paths keeping their order (a stable sort).
pub open spec fn sort_by_path(s: Seq<ScannedFileView>) -> Seq<ScannedFileView>
    decreases s.len(),
{
    if s.len() == 0 {
        s
    } else {
        insert_by_path(sort_by_path(s.drop_last()), s.last())
    }
}

pub open spec fn sorted_by_path(s: Seq<ScannedFileView>) -> bool {
    forall|i: int, j: int| 0 <= i < j < s.len() ==> path_le(s[i], s[j])
}

/// What scanning a workspace gives: its files in path order, or the first error met.
pub open spec fn scan_spec(
    items: Seq<Result<ScanEntryView, Seq<char>>>,
    root: Seq<char>,
    ipj_path: Seq<char>,
) -> Result<Seq<ScannedFileView>, Seq<char>> {
    match scan_collect(items, root, ipj_path) {
        Ok(files) => Ok(sort_by_path(files)),
        Err(m) => Err(m),
    }
}

proof fn lemma_insert_props(s: Seq<ScannedFileView>, x: ScannedFileView)
    requires
        sorted_by_path(s),
    ensures
        sorted_by_path(insert_by_path(s, x)),
        insert_by_path(s, x).to_multiset() == s.to_multiset().insert(x),
        insert_by_path(s, x).len() == s.len() + 1,
    decreases s.len(),
{
    if s.len() == 0 {
        assert(seq![x] =~= Seq::<ScannedFileView>::empty().push(x));
    } else if path_le(s.last(), x) {
        assert(s.push(x).to_multiset() == s.to_multiset().insert(x));
        assert forall|i: int, j: int| 0 <= i < j < s.len() + 1 implies path_le(
            s.push(x)[i],
            s.push(x)[j],
        ) by {
            if j == s.len() {
                if i < s.len() - 1 {
                    assert(path_le(s[i], s[s.len() - 1]));
                    lemma_chars_le_trans(s[i].manifest.path, s.last().manifest.path, x.manifest.path);
                }
            }
        }
    } else {
        let init = s.drop_last();
        assert(sorted_by_path(init));
        lemma_insert_props(init, x);
        let r = insert_by_path(init, x);
        lemma_chars_le_total(s.last().manifest.path, x.manifest.path);
        assert forall|k: int| 0 <= k < r.len() implies path_le(r[k], s.last()) by {
            assert(r.to_multiset().count(r[k]) > 0);
            assert(init.to_multiset().insert(x).count(r[k]) > 0);
            if r[k] != x {
                assert(init.to_multiset().count(r[k]) > 0);
                assert(init.contains(r[k]));
                let m = choose|m: int| 0 <= m < init.len() && init[m] == r[k];
                assert(s[m] == init[m]);
            }
        }
        assert forall|i: int, j: int| 0 <= i < j < r.len() + 1 implies path_le(
            r.push(s.last())[i],
            r.push(s.last())[j],
        ) by {}
        assert(s =~= init.push(s.last()));
    }
}

/// Sorting by path yields a sorted arrangement of the same files.
pub proof fn lemma_sort_by_path(s: Seq<ScannedFileView>)
    ensures
        sorted_by_path(sort_by_path(s)),
        sort_by_path(s).to_multiset() == s.to_multiset(),
        sort_by_path(s).len() == s.len(),
    decreases s.len(),
{
    if s.len() > 0 {
        lemma_sort_by_path(s.drop_last());
        lemma_insert_props(sort_by_path(s.drop_last()), s.last());
        assert(s =~= s.drop_last().push(s.last()));
    }
}

proof fn lemma_insert_at(s: Seq<ScannedFileView>, x: ScannedFileView, j: int)
    requires
        0 <= j <= s.len(),
        forall|k: int| j <= k < s.len() ==> !path_le(s[k], x),
        j > 0 ==> path_le(s[j - 1], x),
    ensures
        insert_by_path(s, x) == s.insert(j, x),
    decreases s.len(),
{
    if s.len() == 0 {
        assert(s.insert(j, x) =~= seq![x]);
    } else if j == s.len() {
        assert(s.insert(j, x) =~= s.push(x));
    } else {
        lemma_insert_at(s.drop_last(), x, j);
        assert(s.insert(j, x) =~= s.drop_last().insert(j, x).push(s.last()));
    }
}

/// Sorts the files by manifest path, keeping the order of equal paths.
pub fn sort_files(files: &Vec<ScannedFile>) -> (r: Vec<ScannedFile>)
    ensures
        scanned_view(r@) == sort_by_path(scanned_view(files@)),
{
    let mut out: Vec<ScannedFile> = Vec::new();
    let mut i: usize = 0;
    while i < files.len()
        invariant
            0 <= i <= files.len(),
            scanned_view(out@) == sort_by_path(scanned_view(files@).take(i as int)),
        decreases files.len() - i,
    {
        let x = files[i].clone();
        let key = chars_of(x.manifest.path.as_str());
        let ghost sv = scanned_view(out@);
        let mut j: usize = out.len();
        while j > 0 && !chars_le_exec(&chars_of(out[j - 1].manifest.path.as_str()), &key)
            invariant
                0 <= j <= out.len(),
                sv == scanned_view(out@),
                key@ == x@.manifest.path,
                forall|k: int| j <= k < out.len() ==> !path_le(sv[k], x@),
            decreases j,
        {
            assert(sv[j - 1] == out@[j - 1]@);
            j = j - 1;
        }
        proof {
            if j > 0 {
                assert(sv[j - 1] == out@[j - 1]@);
            }
            lemma_insert_at(sv, x@, j as int);
        }
        out.insert(j, x);
        proof {
            assert(scanned_view(out@) =~= sv.insert(j as int, x@));
            assert(scanned_view(files@).take(i + 1).drop_last() =~= scanned_view(files@).take(
                i as int,
            ));
            assert(scanned_view(files@).take(i + 1).last() == files@[i as int]@);
        }
        i = i + 1;
    }
    assert(scanned_view(files@).take(files.len() as int) =~= scanned_view(files@));
    out
}

proof fn lemma_scan_error_persists(
    items: Seq<Result<ScanEntryView, Seq<char>>>,
    root: Seq<char>,
    ipj_path: Seq<char>,
    k: int,
)
    requires
        0 <= k <= items.len(),
        scan_collect(items.take(k), root, ipj_path) is Err,
    ensures
        scan_collect(items, root, ipj_path) == scan_collect(items.take(k), root, ipj_path),
    decreases items.len() - k,
{
    if k < items.len() {
        assert(items.take(k + 1).drop_last() =~= items.take(k));
        lemma_scan_error_persists(items, root, ipj_path, k + 1);
    } else {
        assert(items.take(k) =~= items);
    }
}

/// The files of a workspace in manifest-path order, given the items of a walk over it in walk
/// order: regular files other than the project file and hidden or temporary files, with their
/// paths relative to `workspace_root`. The first walk or metadata error met fails the scan.
pub fn scan_workspace(
    workspace_root: &str,
    ipj_path: &str,
    items: &Vec<Result<ScanEntry, String>>,
) -> (r: Result<Vec<ScannedFile>, String>)
    ensures
        match scan_spec(walk_view(items@), workspace_root@, ipj_path@) {
            Ok(files) => r matches Ok(v) && scanned_view(v@) == files,
            Err(m) => r matches Err(e) && e@ == m,
        },
{
    let ghost w = walk_view(items@);
    let mut files: Vec<ScannedFile> = Vec::new();
    let mut i: usize = 0;
    assert(w.take(0).len() == 0);
    assert(scanned_view(files@) =~= Seq::<ScannedFileView>::empty());
    while i < items.len()
        invariant
            0 <= i <= items.len(),
            w == walk_view(items@),
            scan_collect(w.take(i as int), workspace_root@, ipj_path@) == Ok::<
                Seq<ScannedFileView>,
                Seq<char>,
            >(scanned_view(files@)),
        decreases items.len() - i,
    {
        assert(w.take(i + 1).drop_last() =~= w.take(i as int));
        assert(w.take(i + 1).last() == w[i as int]);
        match &items[i] {
            Err(walk_error) => {
                let mut m = String::new();
                m.append("workspace를 스캔하지 못했습니다: ");
                m.append(walk_error.as_str());
                proof {
                    lemma_scan_error_persists(w, workspace_root@, ipj_path@, i + 1);
                }
                return Err(m);
            },
            Ok(entry) => {
                if entry.is_file && !same_path(entry.path.as_str(), ipj_path) && !should_skip_file(
                    entry.path.as_str(),
                ) {
                    match &entry.size {
                        Err(meta_error) => {
                            let mut m = String::new();
                            m.append("파일 메타데이터를 읽지 못했습니다: ");
                            m.append(meta_error.as_str());
                            proof {
                                lemma_scan_error_persists(w, workspace_root@, ipj_path@, i + 1);
                            }
                            return Err(m);
                        },
                        Ok(size) => {
                            let rel = match strip_prefix_of(entry.path.as_str(), workspace_root) {
                                Some(rel) => rel,
                                None => entry.path.clone(),
                            };
                            let scanned = ScannedFile {
                                absolute_path: entry.path.clone(),
                                manifest: ImportManifestFile {
                                    path: normalize_relative_path(rel.as_str()),
                                    file_type: classify_file(entry.path.as_str()),
                                    size_bytes: *size,
                                },
                            };
                            let ghost before = scanned_view(files@);
                            files.push(scanned);
                            assert(scanned_view(files@) =~= before.push(scanned@));
                        },
                    }
                }
            },
        }
        i = i + 1;
    }
    assert(w.take(items.len() as int) =~= w);
    Ok(sort_files(&files))
}

/// The number of files of the given kind.
pub open spec fn count_kind(files: Seq<ScannedFileView>, t: ImportFileType) -> nat
    decreases files.len(),
{
    if files.len() == 0 {
        0
    } else {
        count_kind(files.drop_last(), t) + if files.last().manifest.file_type == t {
            1nat
        } else {
            0nat
        }
    }
}

/// The sum of the files' sizes.
pub open spec fn total_size(files: Seq<ScannedFileView>) -> nat
    decreases files.len(),
{
    if files.len() == 0 {
        0
    } else {
        total_size(files.drop_last()) + files.last().manifest.size_bytes as nat
    }
}

pub open spec fn summary_spec(files: Seq<ScannedFileView>) -> ImportSummary {
    ImportSummary {
        total_files: files.len() as usize,
        total_bytes: total_size(files) as u64,
        part_count: count_kind(files, ImportFileType::Part) as usize,
        assembly_count: count_kind(files, ImportFileType::Assembly) as usize,
        drawing_count: count_kind(files, ImportFileType::Drawing) as usize,
        attachment_count: count_kind(files, ImportFileType::Attachment) as usize,
    }
}

proof fn lemma_counts_bounded(files: Seq<ScannedFileView>)
    ensures
        count_kind(files, ImportFileType::Part) + count_kind(files, ImportFileType::Assembly)
            + count_kind(files, ImportFileType::Drawing) + count_kind(
            files,
            ImportFileType::Attachment,
        ) == files.len(),
    decreases files.len(),
{
    if files.len() > 0 {
        lemma_counts_bounded(files.drop_last());
    }
}

/// The kinds partition the files: the four counts add up to the number of files.
pub proof fn lemma_summary_counts_add_up(files: Seq<ScannedFileView>)
    requires
        files.len() <= usize::MAX,
        total_size(files) <= u64::MAX,
    ensures
        summary_spec(files).part_count + summary_spec(files).assembly_count + summary_spec(
            files,
        ).drawing_count + summary_spec(files).attachment_count == summary_spec(files).total_files,
{
    lemma_counts_bounded(files);
}

pub proof fn lemma_total_size_prefix(files: Seq<ScannedFileView>, i: int)
    requires
        0 <= i <= files.len(),
    ensures
        total_size(files.take(i)) <= total_size(files),
    decreases files.len() - i,
{
    if i < files.len() {
        lemma_total_size_prefix(files, i + 1);
        assert(files.take(i + 1).drop_last() =~= files.take(i));
    } else {
        assert(files.take(i) =~= files);
    }
}

proof fn lemma_concat_parts(a: Seq<ScannedFileView>, b: Seq<ScannedFileView>)
    ensures
        total_size(a + b) == total_size(a) + total_size(b),
        forall|t: ImportFileType| #[trigger] count_kind(a + b, t) == count_kind(a, t) + count_kind(b, t),
    decreases b.len(),
{
    if b.len() == 0 {
        assert(a + b =~= a);
    } else {
        lemma_concat_parts(a, b.drop_last());
        assert((a + b).drop_last() =~= a + b.drop_last());
        assert((a + b).last() == b.last());
        assert forall|t: ImportFileType| #[trigger]
            count_kind(a + b, t) == count_kind(a, t) + count_kind(b, t) by {
            assert(count_kind(a + b.drop_last(), t) == count_kind(a, t) + count_kind(
                b.drop_last(),
                t,
            ));
        }
    }
}

/// Summaries add up: the summary of two lists of files, one after the other, counts and
/// sums what the summaries of the two lists count and sum.
pub proof fn lemma_summary_of_concat(a: Seq<ScannedFileView>, b: Seq<ScannedFileView>)
    requires
        (a + b).len() <= usize::MAX,
        total_size(a + b) <= u64::MAX,
    ensures
        summary_spec(a + b).total_files == summary_spec(a).total_files + summary_spec(b).total_files,
        summary_spec(a + b).total_bytes == summary_spec(a).total_bytes + summary_spec(b).total_bytes,
        summary_spec(a + b).part_count == summary_spec(a).part_count + summary_spec(b).part_count,
        summary_spec(a + b).assembly_count == summary_spec(a).assembly_count + summary_spec(
            b,
        ).assembly_count,
        summary_spec(a + b).drawing_count == summary_spec(a).drawing_count + summary_spec(
            b,
        ).drawing_count,
        summary_spec(a + b).attachment_count == summary_spec(a).attachment_count + summary_spec(
            b,
        ).attachment_count,
{
    lemma_concat_parts(a, b);
    lemma_counts_bounded(a);
    lemma_counts_bounded(b);
    assert(count_kind(a + b, ImportFileType::Part) == count_kind(a, ImportFileType::Part)
        + count_kind(b, ImportFileType::Part));
    assert(count_kind(a + b, ImportFileType::Assembly) == count_kind(a, ImportFileType::Assembly)
        + count_kind(b, ImportFileType::Assembly));
    assert(count_kind(a + b, ImportFileType::Drawing) == count_kind(a, ImportFileType::Drawing)
        + count_kind(b, ImportFileType::Drawing));
    assert(count_kind(a + b, ImportFileType::Attachment) == count_kind(
        a,
        ImportFileType::Attachment,
    ) + count_kind(b, ImportFileType::Attachment));
}

proof fn lemma_parts_order_free(a: Seq<ScannedFileView>, b: Seq<ScannedFileView>)
    requires
        a.to_multiset() == b.to_multiset(),
    ensures
        total_size(a) == total_size(b),
        forall|t: ImportFileType| #[trigger] count_kind(a, t) == count_kind(b, t),
    decreases a.len(),
{
    if a.len() == 0 {
        assert(b.to_multiset().len() == 0);
        assert(b =~= a);
    } else {
        let x = a.last();
        let a1 = a.drop_last();
        assert(a1.push(x) =~= a);
        assert(a.to_multiset().count(x) > 0);
        assert(b.contains(x));
        let j = choose|j: int| 0 <= j < b.len() && b[j] == x;
        let b1 = b.remove(j);
        assert(b1.to_multiset() =~= a1.to_multiset()) by {
            assert(b1.to_multiset() == b.to_multiset().remove(x));
            assert(a.to_multiset() == a1.to_multiset().insert(x));
        }
        lemma_parts_order_free(a1, b1);
        let pre = b.take(j);
        let post = b.skip(j + 1);
        assert(b1 =~= pre + post);
        assert(b =~= pre + (seq![x] + post));
        lemma_concat_parts(pre, post);
        lemma_concat_parts(pre, seq![x] + post);
        lemma_concat_parts(seq![x], post);
        lemma_concat_parts(a1, seq![x]);
        assert(a1 + seq![x] =~= a);
        assert(seq![x].drop_last() =~= Seq::<ScannedFileView>::empty());
    }
}

/// The summary does not depend on the order of the files: two lists holding the same files
/// have the same summary.
pub proof fn lemma_summary_order_free(a: Seq<ScannedFileView>, b: Seq<ScannedFileView>)
    requires
        a.to_multiset() == b.to_multiset(),
    ensures
        summary_spec(a) == summary_spec(b),
{
    lemma_parts_order_free(a, b);
    assert(a.len() == b.len()) by {
        vstd::seq_lib::to_multiset_len(a);
        vstd::seq_lib::to_multiset_len(b);
    }
    assert(count_kind(a, ImportFileType::Part) == count_kind(b, ImportFileType::Part));
    assert(count_kind(a, ImportFileType::Assembly) == count_kind(b, ImportFileType::Assembly));
    assert(count_kind(a, ImportFileType::Drawing) == count_kind(b, ImportFileType::Drawing));
    assert(count_kind(a, ImportFileType::Attachment) == count_kind(b, ImportFileType::Attachment));
}

/// The sum of the files' sizes, or `None` where it does not fit in a `u64`.
pub fn total_size_checked(files: &Vec<ScannedFile>) -> (r: Option<u64>)
    ensures
        total_size(scanned_view(files@)) <= u64::MAX ==> r == Some(
            total_size(scanned_view(files@)) as u64,
        ),
        total_size(scanned_view(files@)) > u64::MAX ==> r is None,
{
    let ghost all = scanned_view(files@);
    let mut sum: u64 = 0;
    let mut i: usize = 0;
    while i < files.len()
        invariant
            0 <= i <= files.len(),
            all == scanned_view(files@),
            sum == total_size(all.take(i as int)),
        decreases files.len() - i,
    {
        proof {
            assert(all.take(i + 1).drop_last() =~= all.take(i as int));
            lemma_total_size_prefix(all, i + 1);
        }
        match sum.checked_add(files[i].manifest.size_bytes) {
            Some(s) => sum = s,
            None => {
                return None;
            },
        }
        i = i + 1;
    }
    assert(all.take(files.len() as int) =~= all);
    Some(sum)
}

/// Counts the files by kind and adds up their sizes.
pub fn summarize_files(files: &Vec<ScannedFile>) -> (s: ImportSummary)
    requires
        total_size(scanned_view(files@)) <= u64::MAX,
    ensures
        s == summary_spec(scanned_view(files@)),
{
    let ghost all = scanned_view(files@);
    let mut summary = ImportSummary {
        total_files: files.len(),
        total_bytes: 0,
        part_count: 0,
        assembly_count: 0,
        drawing_count: 0,
        attachment_count: 0,
    };
    let mut i: usize = 0;
    while i < files.len()
        invariant
            0 <= i <= files.len(),
            all == scanned_view(files@),
            total_size(all) <= u64::MAX,
            summary.total_files == files.len(),
            summary.total_bytes == total_size(all.take(i as int)),
            summary.part_count == count_kind(all.take(i as int), ImportFileType::Part),
            summary.assembly_count == count_kind(all.take(i as int), ImportFileType::Assembly),
            summary.drawing_count == count_kind(all.take(i as int), ImportFileType::Drawing),
            summary.attachment_count == count_kind(all.take(i as int), ImportFileType::Attachment),
        decreases files.len() - i,
    {
        let f = &files[i];
        proof {
            assert(all.take(i + 1).drop_last() =~= all.take(i as int));
            assert(all.take(i + 1).last() == f@);
            lemma_total_size_prefix(all, i + 1);
            lemma_counts_bounded(all.take(i + 1));
        }
        summary.total_bytes = summary.total_bytes + f.manifest.size_bytes;
        match f.manifest.file_type {
            ImportFileType::Part => summary.part_count = summary.part_count + 1,
            ImportFileType::Assembly => summary.assembly_count = summary.assembly_count + 1,
            ImportFileType::Drawing => summary.drawing_count = summary.drawing_count + 1,
            ImportFileType::Attachment => summary.attachment_count = summary.attachment_count
                + 1,
        }
        i = i + 1;
    }
    assert(all.take(files.len() as int) =~= all);
    summary
}

proof fn lemma_collect_eligible(
    items: Seq<Result<ScanEntryView, Seq<char>>>,
    root: Seq<char>,
    ipj_path: Seq<char>,
)
    ensures
        scan_collect(items, root, ipj_path) matches Ok(files) ==> forall|i: int|
            0 <= i < files.len() ==> !skip_spec(#[trigger] files[i].absolute_path) && !path_eq(
                files[i].absolute_path,
                ipj_path,
            ),
    decreases items.len(),
{
    if items.len() > 0 {
        lemma_collect_eligible(items.drop_last(), root, ipj_path);
    }
}

/// A workspace scan never lists the project file itself, nor hidden or temporary files.
pub proof fn lemma_scan_skips_project_and_hidden(
    items: Seq<Result<ScanEntryView, Seq<char>>>,
    root: Seq<char>,
    ipj_path: Seq<char>,
)
    ensures
        scan_spec(items, root, ipj_path) matches Ok(files) ==> forall|i: int|
            0 <= i < files.len() ==> !skip_spec(#[trigger] files[i].absolute_path) && !path_eq(
                files[i].absolute_path,
                ipj_path,
            ),
{
    lemma_collect_eligible(items, root, ipj_path);
    if let Ok(collected) = scan_collect(items, root, ipj_path) {
        lemma_sort_by_path(collected);
        let sorted = sort_by_path(collected);
        assert forall|i: int| 0 <= i < sorted.len() implies !skip_spec(
            #[trigger] sorted[i].absolute_path,
        ) && !path_eq(sorted[i].absolute_path, ipj_path) by {
            assert(sorted.to_multiset().count(sorted[i]) > 0);
            assert(collected.to_multiset().count(sorted[i]) > 0);
            assert(collected.contains(sorted[i]));
        }
    }
}

} // verus!

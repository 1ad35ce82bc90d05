use vstd::prelude::*;
use crate::apps::{one_of, is_one_of, rfind};
use crate::text::{chars_of, lower, lower_vec};
use vstd::string::StringSliceAdditionalSpecFns;
use crate::tree::slice_chars;

verus! {

pub const HARD_MAX_FILES: usize = 2000000;

pub const HARD_MAX_RESULTS: usize = 50000;

pub const HARD_MAX_SAMPLE_BYTES: usize = 1048576;

pub const DEFAULT_DIRECTORY_MAX_FILES: usize = 500000;

pub const DEFAULT_DIRECTORY_MAX_RESULTS: usize = 10000;

pub const DEFAULT_LARGE_FILE_MINIMUM_BYTES: u64 = 104857600;

pub const DEFAULT_LARGE_FILE_MAX_FILES: usize = 500000;

pub const DEFAULT_LARGE_FILE_MAX_RESULTS: usize = 2000;

pub const DEFAULT_DUPLICATE_MINIMUM_BYTES: u64 = 1048576;

pub const DEFAULT_DUPLICATE_MAX_FILES: usize = 250000;

pub const DEFAULT_DUPLICATE_MAX_GROUPS: usize = 2000;

pub const DEFAULT_DUPLICATE_MAX_MEMBERS: usize = 10000;

pub const DEFAULT_DUPLICATE_SAMPLE_BYTES: usize = 65536;

/// What a walk of a directory tree visited and how it ended.
#[derive(Clone, Debug)]
pub struct ScanStats {
    pub visited_entries: u64,
    pub scanned_files: u64,
    pub skipped: u64,
    /// Additional hard links to already-counted content, excluded from totals
    /// so shared clusters are charged exactly once.
    pub deduplicated_hard_links: u64,
    pub cancelled: bool,
    pub limit_reached: bool,
}

impl Default for ScanStats {
    fn default() -> (stats: Self)
        ensures
            stats.visited_entries == 0,
            stats.scanned_files == 0,
            stats.skipped == 0,
            stats.deduplicated_hard_links == 0,
            !stats.cancelled,
            !stats.limit_reached,
    {
        ScanStats {
            visited_entries: 0,
            scanned_files: 0,
            skipped: 0,
            deduplicated_hard_links: 0,
            cancelled: false,
            limit_reached: false,
        }
    }
}

/// Limits of a directory-usage analysis.
#[derive(Clone, Debug)]
pub struct DirectoryScanOptions {
    pub max_files: usize,
    pub max_results: usize,
    pub excluded_paths: Vec<String>,
}

impl Default for DirectoryScanOptions {
    fn default() -> (options: Self)
        ensures
            options.max_files == DEFAULT_DIRECTORY_MAX_FILES,
            options.max_results == DEFAULT_DIRECTORY_MAX_RESULTS,
            options.excluded_paths@.len() == 0,
    {
        DirectoryScanOptions {
            max_files: DEFAULT_DIRECTORY_MAX_FILES,
            max_results: DEFAULT_DIRECTORY_MAX_RESULTS,
            excluded_paths: Vec::new(),
        }
    }
}

/// Limits of a large-file scan.
#[derive(Clone, Debug)]
pub struct LargeFileScanOptions {
    pub min_size_bytes: u64,
    pub max_files: usize,
    pub max_results: usize,
    pub excluded_paths: Vec<String>,
}

impl Default for LargeFileScanOptions {
    fn default() -> (options: Self)
        ensures
            options.min_size_bytes == DEFAULT_LARGE_FILE_MINIMUM_BYTES,
            options.max_files == DEFAULT_LARGE_FILE_MAX_FILES,
            options.max_results == DEFAULT_LARGE_FILE_MAX_RESULTS,
            options.excluded_paths@.len() == 0,
    {
        LargeFileScanOptions {
            min_size_bytes: DEFAULT_LARGE_FILE_MINIMUM_BYTES,
            max_files: DEFAULT_LARGE_FILE_MAX_FILES,
            max_results: DEFAULT_LARGE_FILE_MAX_RESULTS,
            excluded_paths: Vec::new(),
        }
    }
}

/// Limits of a duplicate-file scan.
#[derive(Clone, Debug)]
pub struct DuplicateScanOptions {
    pub min_size_bytes: u64,
    pub max_files: usize,
    pub max_groups: usize,
    pub max_members: usize,
    pub sample_bytes: usize,
    pub excluded_paths: Vec<String>,
}

impl Default for DuplicateScanOptions {
    fn default() -> (options: Self)
        ensures
            options.min_size_bytes == DEFAULT_DUPLICATE_MINIMUM_BYTES,
            options.max_files == DEFAULT_DUPLICATE_MAX_FILES,
            options.max_groups == DEFAULT_DUPLICATE_MAX_GROUPS,
            options.max_members == DEFAULT_DUPLICATE_MAX_MEMBERS,
            options.sample_bytes == DEFAULT_DUPLICATE_SAMPLE_BYTES,
            options.excluded_paths@.len() == 0,
    {
        DuplicateScanOptions {
            min_size_bytes: DEFAULT_DUPLICATE_MINIMUM_BYTES,
            max_files: DEFAULT_DUPLICATE_MAX_FILES,
            max_groups: DEFAULT_DUPLICATE_MAX_GROUPS,
            max_members: DEFAULT_DUPLICATE_MAX_MEMBERS,
            sample_bytes: DEFAULT_DUPLICATE_SAMPLE_BYTES,
            excluded_paths: Vec::new(),
        }
    }
}

/// The share of a volume that one kind of content takes.
#[derive(Clone, Debug)]
pub struct StorageCategory {
    pub id: String,
    pub label: String,
    pub size_bytes: u64,
    pub allocated_bytes: u64,
    pub color: String,
    pub description: String,
    pub file_count: u64,
}

/// How carefully a large file must be treated before it is removed.
#[derive(Clone, Copy, Debug, PartialEq, Eq, Structural)]
pub enum Sensitivity {
    Normal,
    Attention,
    Protected,
}

/// A large file as the user sees it.
#[derive(Clone, Debug)]
pub struct LargeFileEntry {
    pub id: String,
    pub name: String,
    pub path: String,
    pub size_bytes: u64,
    pub allocated_bytes: u64,
    pub modified_at: String,
    pub file_type: String,
    pub sensitivity: Sensitivity,
    pub note: Option<String>,
}

/// The largest files below a scan root, largest first.
#[derive(Clone, Debug)]
pub struct LargeFileScanResult {
    pub root: String,
    pub files: Vec<LargeFileEntry>,
    pub total_matched_bytes: u64,
    pub stats: ScanStats,
}

/// A file found by a scan, as it was when it was found.
#[derive(Clone, Debug)]
pub struct FileCandidate {
    pub path: String,
    pub size_bytes: u64,
    /// Modification time in whole seconds since the Unix epoch, when known.
    pub modified_secs: Option<u64>,
    /// Modification time in nanoseconds since the Unix epoch, when known.
    pub modified_unix_nanos: Option<i128>,
    pub identity: Option<crate::scanner::FileIdentity>,
    /// The path's components below its volume, the file name last.
    pub components: Vec<String>,
}

/// A large file that may be deleted later, with what identifies it.
#[derive(Clone, Debug)]
pub struct LargeFileSnapshot {
    pub entry: LargeFileEntry,
    pub canonical_root: String,
    pub candidate: FileCandidate,
}

impl LargeFileSnapshot {
    /// The entry that the user saw for this file.
    pub fn entry(&self) -> (r: &LargeFileEntry)
        ensures
            *r == self.entry,
    {
        &self.entry
    }
}

/// One copy in a group of identical files.
#[derive(Clone, Debug)]
pub struct DuplicateMember {
    pub id: String,
    pub name: String,
    pub path: String,
    pub modified_at: String,
    pub suggested_keep: bool,
    pub protected: bool,
}

/// The evidence that a group's files are identical.
#[derive(Clone, Copy, Debug, PartialEq, Eq, Structural)]
pub enum DuplicateMatch {
    FullHash,
}

/// Files with identical content.
#[derive(Clone, Debug)]
pub struct DuplicateGroup {
    pub id: String,
    pub hash: String,
    pub size_bytes: u64,
    pub reclaimable_bytes: u64,
    pub match_kind: DuplicateMatch,
    pub total_members: usize,
    pub members: Vec<DuplicateMember>,
}

/// The groups of identical files below a scan root.
#[derive(Clone, Debug)]
pub struct DuplicateScanResult {
    pub root: String,
    pub groups: Vec<DuplicateGroup>,
    pub candidate_files: u64,
    pub sampled_files: u64,
    pub hashed_files: u64,
    pub reclaimable_bytes: u64,
    pub stats: ScanStats,
}

/// A duplicate result with nothing found.
pub fn empty_duplicate_result(root: String, stats: ScanStats) -> (r: DuplicateScanResult)
    ensures
        r.root == root,
        r.groups@.len() == 0,
        r.candidate_files == 0,
        r.sampled_files == 0,
        r.hashed_files == 0,
        r.reclaimable_bytes == 0,
        r.stats == stats,
{
    DuplicateScanResult {
        root,
        groups: Vec::new(),
        candidate_files: 0,
        sampled_files: 0,
        hashed_files: 0,
        reclaimable_bytes: 0,
        stats,
    }
}

/// The refusal for a file limit out of range.
pub open spec fn max_files_message() -> Seq<char> {
    "maxFiles 必须在 1 到 2000000 之间"@
}

/// The refusal for a result limit out of range.
pub open spec fn max_results_message() -> Seq<char> {
    "maxResults 必须在 1 到 50000 之间"@
}

/// Limits must lie between one and the hard maxima.
pub fn validate_limits(max_files: usize, max_results: usize) -> (r: Result<(), String>)
    ensures
        r is Ok <==> (1 <= max_files <= HARD_MAX_FILES && 1 <= max_results <= HARD_MAX_RESULTS),
        r matches Err(message) ==> message@ == if !(1 <= max_files <= HARD_MAX_FILES) {
            max_files_message()
        } else {
            max_results_message()
        },
{
    if max_files == 0 || max_files > HARD_MAX_FILES {
        return Err("maxFiles 必须在 1 到 2000000 之间".to_string());
    }
    if max_results == 0 || max_results > HARD_MAX_RESULTS {
        return Err("maxResults 必须在 1 到 50000 之间".to_string());
    }
    Ok(())
}

/// The refusal of a duplicate scan's options, if any, in the order they are
/// checked.
pub open spec fn duplicate_options_refusal(options: DuplicateScanOptions) -> Option<Seq<char>> {
    if !(1 <= options.max_files <= HARD_MAX_FILES) {
        Some(max_files_message())
    } else if !(1 <= options.max_groups <= HARD_MAX_RESULTS) {
        Some(max_results_message())
    } else if options.min_size_bytes == 0 {
        Some("minSizeBytes 必须大于 0，空文件不参与重复文件扫描"@)
    } else if options.max_members < 2 || options.max_members > HARD_MAX_RESULTS {
        Some("maxMembers 必须在 2 到 50000 之间"@)
    } else if options.sample_bytes == 0 || options.sample_bytes > HARD_MAX_SAMPLE_BYTES {
        Some("sampleBytes 必须在 1 到 1048576 之间"@)
    } else {
        None
    }
}

pub fn validate_duplicate_options(options: &DuplicateScanOptions) -> (r: Result<(), String>)
    ensures
        match duplicate_options_refusal(*options) {
            Some(message) => r matches Err(m) && m@ == message,
            None => r is Ok,
        },
{
    match validate_limits(options.max_files, options.max_groups) {
        Ok(()) => {},
        Err(message) => return Err(message),
    }
    if options.min_size_bytes == 0 {
        return Err("minSizeBytes 必须大于 0，空文件不参与重复文件扫描".to_string());
    }
    if options.max_members < 2 || options.max_members > HARD_MAX_RESULTS {
        return Err("maxMembers 必须在 2 到 50000 之间".to_string());
    }
    if options.sample_bytes == 0 || options.sample_bytes > HARD_MAX_SAMPLE_BYTES {
        return Err("sampleBytes 必须在 1 到 1048576 之间".to_string());
    }
    Ok(())
}

pub open spec fn sys_comp_names() -> Seq<&'static str> {
    seq!["windows", "recovery", "system volume information", "$windows.~bt", "$windows.~ws"]
}

fn sys_comp_list() -> (r: Vec<&'static str>)
    ensures
        r@ == sys_comp_names(),
{
    let v: Vec<&'static str> = vec!["windows", "recovery", "system volume information", "$windows.~bt", "$windows.~ws"];
    assert(v@ =~= sys_comp_names());
    v
}

pub open spec fn app_comp_names() -> Seq<&'static str> {
    seq!["program files", "program files (x86)", "programdata", "appdata", "windowsapps", "steamapps"]
}

fn app_comp_list() -> (r: Vec<&'static str>)
    ensures
        r@ == app_comp_names(),
{
    let v: Vec<&'static str> = vec!["program files", "program files (x86)", "programdata", "appdata", "windowsapps", "steamapps"];
    assert(v@ =~= app_comp_names());
    v
}

pub open spec fn media_names() -> Seq<&'static str> {
    seq!["jpg", "jpeg", "png", "gif", "bmp", "webp", "heic", "tif", "tiff", "raw", "cr2", "nef", "dng", "svg", "mp4", "mkv", "mov", "avi", "wmv", "webm", "m4v", "mpeg", "mpg", "ts", "mts", "mp3", "wav", "flac", "aac", "m4a", "ogg", "wma"]
}

fn media_list() -> (r: Vec<&'static str>)
    ensures
        r@ == media_names(),
{
    let v: Vec<&'static str> = vec!["jpg", "jpeg", "png", "gif", "bmp", "webp", "heic", "tif", "tiff", "raw", "cr2", "nef", "dng", "svg", "mp4", "mkv", "mov", "avi", "wmv", "webm", "m4v", "mpeg", "mpg", "ts", "mts", "mp3", "wav", "flac", "aac", "m4a", "ogg", "wma"];
    assert(v@ =~= media_names());
    v
}

pub open spec fn appx_names() -> Seq<&'static str> {
    seq!["exe", "dll", "msi", "msix", "appx", "sys", "ocx", "cpl", "jar", "apk", "pak", "cab", "nupkg"]
}

fn appx_list() -> (r: Vec<&'static str>)
    ensures
        r@ == appx_names(),
{
    let v: Vec<&'static str> = vec!["exe", "dll", "msi", "msix", "appx", "sys", "ocx", "cpl", "jar", "apk", "pak", "cab", "nupkg"];
    assert(v@ =~= appx_names());
    v
}

pub open spec fn docs_names() -> Seq<&'static str> {
    seq!["doc", "docx", "xls", "xlsx", "ppt", "pptx", "pdf", "txt", "md", "rtf", "odt", "ods", "csv", "json", "xml", "yaml", "yml", "toml", "rs", "c", "cc", "cpp", "h", "hpp", "cs", "java", "kt", "go", "py", "js", "jsx", "ts", "tsx", "vue", "html", "css", "scss", "sql", "psd", "ai", "sketch", "fig", "dwg", "dxf", "blend", "zip", "7z", "rar", "tar", "gz", "bz2", "xz", "bak"]
}

fn docs_list() -> (r: Vec<&'static str>)
    ensures
        r@ == docs_names(),
{
    let v: Vec<&'static str> = vec!["doc", "docx", "xls", "xlsx", "ppt", "pptx", "pdf", "txt", "md", "rtf", "odt", "ods", "csv", "json", "xml", "yaml", "yml", "toml", "rs", "c", "cc", "cpp", "h", "hpp", "cs", "java", "kt", "go", "py", "js", "jsx", "ts", "tsx", "vue", "html", "css", "scss", "sql", "psd", "ai", "sketch", "fig", "dwg", "dxf", "blend", "zip", "7z", "rar", "tar", "gz", "bz2", "xz", "bak"];
    assert(v@ =~= docs_names());
    v
}

pub open spec fn sysx_names() -> Seq<&'static str> {
    seq!["efi", "mui", "cat", "manifest", "mum", "dat"]
}

fn sysx_list() -> (r: Vec<&'static str>)
    ensures
        r@ == sysx_names(),
{
    let v: Vec<&'static str> = vec!["efi", "mui", "cat", "manifest", "mum", "dat"];
    assert(v@ =~= sysx_names());
    v
}

pub open spec fn crit_names() -> Seq<&'static str> {
    seq!["windows", "program files", "program files (x86)", "programdata", "recovery", "system volume information", "windowsapps"]
}

fn crit_list() -> (r: Vec<&'static str>)
    ensures
        r@ == crit_names(),
{
    let v: Vec<&'static str> = vec!["windows", "program files", "program files (x86)", "programdata", "recovery", "system volume information", "windowsapps"];
    assert(v@ =~= crit_names());
    v
}

pub open spec fn critname_names() -> Seq<&'static str> {
    seq!["pagefile.sys", "hiberfil.sys", "swapfile.sys", "ntuser.dat", "usrclass.dat"]
}

fn critname_list() -> (r: Vec<&'static str>)
    ensures
        r@ == critname_names(),
{
    let v: Vec<&'static str> = vec!["pagefile.sys", "hiberfil.sys", "swapfile.sys", "ntuser.dat", "usrclass.dat"];
    assert(v@ =~= critname_names());
    v
}

pub open spec fn vm_names() -> Seq<&'static str> {
    seq!["vhd", "vhdx", "vmdk", "vdi", "pst", "ost", "edb"]
}

fn vm_list() -> (r: Vec<&'static str>)
    ensures
        r@ == vm_names(),
{
    let v: Vec<&'static str> = vec!["vhd", "vhdx", "vmdk", "vdi", "pst", "ost", "edb"];
    assert(v@ =~= vm_names());
    v
}

pub open spec fn att_names() -> Seq<&'static str> {
    seq!["iso", "img", "wim", "esd", "zip", "7z", "rar", "tar", "gz", "bz2", "xz", "bak", "backup", "exe", "msi", "msix", "appx"]
}

fn att_list() -> (r: Vec<&'static str>)
    ensures
        r@ == att_names(),
{
    let v: Vec<&'static str> = vec!["iso", "img", "wim", "esd", "zip", "7z", "rar", "tar", "gz", "bz2", "xz", "bak", "backup", "exe", "msi", "msix", "appx"];
    assert(v@ =~= att_names());
    v
}

pub open spec fn disp_names() -> Seq<&'static str> {
    seq!["temp", "tmp", "cache", "downloads", "$recycle.bin"]
}

fn disp_list() -> (r: Vec<&'static str>)
    ensures
        r@ == disp_names(),
{
    let v: Vec<&'static str> = vec!["temp", "tmp", "cache", "downloads", "$recycle.bin"];
    assert(v@ =~= disp_names());
    v
}

pub open spec fn file_type_spec(extension: Seq<char>) -> Seq<char> {
    if false {
        ""@
    } else if one_of(extension, seq!["iso", "img", "wim", "esd"]) {
        "磁盘镜像"@
    } else if one_of(extension, seq!["vhd", "vhdx", "vmdk", "vdi"]) {
        "虚拟磁盘"@
    } else if one_of(extension, seq!["pst", "ost"]) {
        "邮件存档"@
    } else if one_of(extension, seq!["zip", "7z", "rar", "tar", "gz", "bz2", "xz"]) {
        "压缩包"@
    } else if one_of(extension, seq!["bak", "backup"]) {
        "备份文件"@
    } else if one_of(extension, seq!["mp4", "mkv", "mov", "avi", "wmv", "webm", "m4v", "mpeg", "mpg", "ts", "mts"]) {
        "视频"@
    } else if one_of(extension, seq!["mp3", "wav", "flac", "aac", "m4a", "ogg", "wma"]) {
        "音频"@
    } else if one_of(extension, seq!["jpg", "jpeg", "png", "gif", "bmp", "webp", "heic", "tif", "tiff", "raw", "cr2", "nef", "dng"]) {
        "图片"@
    } else if one_of(extension, seq!["psd", "ai", "sketch", "fig", "dwg", "dxf", "blend"]) {
        "设计文件"@
    } else if one_of(extension, seq!["db", "sqlite", "sqlite3", "mdb", "accdb", "edb"]) {
        "数据库"@
    } else if one_of(extension, seq!["exe", "msi", "msix", "appx"]) {
        "程序或安装包"@
    } else if one_of(extension, seq!["dll", "sys", "ocx"]) {
        "系统或程序文件"@
    } else if one_of(extension, seq!["doc", "docx", "xls", "xlsx", "ppt", "pptx", "pdf", "txt", "md"]) {
        "文档"@
    } else if extension.len() == 0 {
        "无扩展名文件"@
    } else {
        "其他文件"@
    }
}

/// The kind of file that an extension names, for the user.
pub fn file_type_of(extension: &Vec<char>) -> (r: String)
    ensures
        r@ == file_type_spec(extension@),
{
    let names: Vec<&'static str> = vec!["iso", "img", "wim", "esd"];
    assert(names@ =~= seq!["iso", "img", "wim", "esd"]);
    if is_one_of_vec(extension, &names) {
        return "磁盘镜像".to_string();
    }
    let names: Vec<&'static str> = vec!["vhd", "vhdx", "vmdk", "vdi"];
    assert(names@ =~= seq!["vhd", "vhdx", "vmdk", "vdi"]);
    if is_one_of_vec(extension, &names) {
        return "虚拟磁盘".to_string();
    }
    let names: Vec<&'static str> = vec!["pst", "ost"];
    assert(names@ =~= seq!["pst", "ost"]);
    if is_one_of_vec(extension, &names) {
        return "邮件存档".to_string();
    }
    let names: Vec<&'static str> = vec!["zip", "7z", "rar", "tar", "gz", "bz2", "xz"];
    assert(names@ =~= seq!["zip", "7z", "rar", "tar", "gz", "bz2", "xz"]);
    if is_one_of_vec(extension, &names) {
        return "压缩包".to_string();
    }
    let names: Vec<&'static str> = vec!["bak", "backup"];
    assert(names@ =~= seq!["bak", "backup"]);
    if is_one_of_vec(extension, &names) {
        return "备份文件".to_string();
    }
    let names: Vec<&'static str> = vec!["mp4", "mkv", "mov", "avi", "wmv", "webm", "m4v", "mpeg", "mpg", "ts", "mts"];
    assert(names@ =~= seq!["mp4", "mkv", "mov", "avi", "wmv", "webm", "m4v", "mpeg", "mpg", "ts", "mts"]);
    if is_one_of_vec(extension, &names) {
        return "视频".to_string();
    }
    let names: Vec<&'static str> = vec!["mp3", "wav", "flac", "aac", "m4a", "ogg", "wma"];
    assert(names@ =~= seq!["mp3", "wav", "flac", "aac", "m4a", "ogg", "wma"]);
    if is_one_of_vec(extension, &names) {
        return "音频".to_string();
    }
    let names: Vec<&'static str> = vec!["jpg", "jpeg", "png", "gif", "bmp", "webp", "heic", "tif", "tiff", "raw", "cr2", "nef", "dng"];
    assert(names@ =~= seq!["jpg", "jpeg", "png", "gif", "bmp", "webp", "heic", "tif", "tiff", "raw", "cr2", "nef", "dng"]);
    if is_one_of_vec(extension, &names) {
        return "图片".to_string();
    }
    let names: Vec<&'static str> = vec!["psd", "ai", "sketch", "fig", "dwg", "dxf", "blend"];
    assert(names@ =~= seq!["psd", "ai", "sketch", "fig", "dwg", "dxf", "blend"]);
    if is_one_of_vec(extension, &names) {
        return "设计文件".to_string();
    }
    let names: Vec<&'static str> = vec!["db", "sqlite", "sqlite3", "mdb", "accdb", "edb"];
    assert(names@ =~= seq!["db", "sqlite", "sqlite3", "mdb", "accdb", "edb"]);
    if is_one_of_vec(extension, &names) {
        return "数据库".to_string();
    }
    let names: Vec<&'static str> = vec!["exe", "msi", "msix", "appx"];
    assert(names@ =~= seq!["exe", "msi", "msix", "appx"]);
    if is_one_of_vec(extension, &names) {
        return "程序或安装包".to_string();
    }
    let names: Vec<&'static str> = vec!["dll", "sys", "ocx"];
    assert(names@ =~= seq!["dll", "sys", "ocx"]);
    if is_one_of_vec(extension, &names) {
        return "系统或程序文件".to_string();
    }
    let names: Vec<&'static str> = vec!["doc", "docx", "xls", "xlsx", "ppt", "pptx", "pdf", "txt", "md"];
    assert(names@ =~= seq!["doc", "docx", "xls", "xlsx", "ppt", "pptx", "pdf", "txt", "md"]);
    if is_one_of_vec(extension, &names) {
        return "文档".to_string();
    }
    if extension.len() == 0 {
        return "无扩展名文件".to_string();
    }
    "其他文件".to_string()
}


fn is_one_of_vec(s: &Vec<char>, names: &Vec<&'static str>) -> (r: bool)
    ensures
        r == one_of(s@, names@),
{
    is_one_of(s, names.as_slice())
}

/// The extension of a file name as `Path::extension` defines it: the text
/// after the last `.`, unless there is none or the only one starts the name.
pub open spec fn extension_spec(name: Seq<char>) -> Option<Seq<char>> {
    match rfind(name, '.') {
        None => None,
        Some(k) => if k == 0 {
            None
        } else {
            Some(name.skip(k + 1))
        },
    }
}

/// The lower-cased extension of a file name, empty when it has none.
pub open spec fn extension_lower_spec(name: Seq<char>) -> Seq<char> {
    match extension_spec(name) {
        Some(e) => lower(e),
        None => seq![],
    }
}

fn extension_lower(name: &Vec<char>) -> (r: Vec<char>)
    ensures
        r@ == extension_lower_spec(name@),
{
    let mut to = name.len();
    while to > 0
        invariant
            0 <= to <= name@.len(),
            rfind(name@, '.') == crate::apps::rfind_before(name@, '.', to as int),
        decreases to,
    {
        if name[to - 1] == '.' {
            if to - 1 == 0 {
                return Vec::new();
            }
            let e = slice_chars(name, to, name.len());
            assert(e@ == name@.skip(to as int));
            return lower_vec(&e);
        }
        to = to - 1;
    }
    Vec::new()
}

/// The path's components, lower-cased.
pub open spec fn lower_components(components: Seq<String>) -> Seq<Seq<char>> {
    components.map_values(|c: String| lower(c@))
}

fn lower_all(components: &Vec<String>) -> (r: Vec<Vec<char>>)
    ensures
        r@.len() == components@.len(),
        forall|i: int| 0 <= i < r@.len() ==> #[trigger] r@[i]@ == lower_components(components@)[i],
{
    let mut out: Vec<Vec<char>> = Vec::new();
    let mut i: usize = 0;
    while i < components.len()
        invariant
            0 <= i <= components@.len(),
            out@.len() == i,
            forall|k: int| 0 <= k < i ==> #[trigger] out@[k]@ == lower_components(components@)[k],
        decreases components@.len() - i,
    {
        let c = chars_of(components[i].as_str());
        out.push(lower_vec(&c));
        i = i + 1;
    }
    out
}

/// Whether some component (lower-cased) is one of `names`.
pub open spec fn any_component_in(lowered: Seq<Seq<char>>, names: Seq<&'static str>) -> bool {
    exists|i: int| 0 <= i < lowered.len() && #[trigger] one_of(lowered[i], names)
}

fn any_component_in_exec(lowered: &Vec<Vec<char>>, names: &Vec<&'static str>) -> (r: bool)
    ensures
        r == any_component_in(views_of_chars(lowered@), names@),
{
    let mut i: usize = 0;
    while i < lowered.len()
        invariant
            0 <= i <= lowered@.len(),
            forall|k: int| 0 <= k < i ==> !#[trigger] one_of(views_of_chars(lowered@)[k], names@),
        decreases lowered@.len() - i,
    {
        if is_one_of_vec(&lowered[i], names) {
            assert(one_of(views_of_chars(lowered@)[i as int], names@));
            return true;
        }
        i = i + 1;
    }
    false
}

pub open spec fn views_of_chars(v: Seq<Vec<char>>) -> Seq<Seq<char>> {
    v.map_values(|c: Vec<char>| c@)
}

/// Whether `text` occurs in `s`.
pub open spec fn contains_text(s: Seq<char>, text: Seq<char>) -> bool {
    exists|i: int| 0 <= i <= s.len() - text.len() && #[trigger] s.subrange(i, i + text.len()) == text
}

fn contains_text_exec(s: &Vec<char>, text: &str) -> (r: bool)
    ensures
        r == contains_text(s@, text@),
{
    let t = chars_of(text);
    if t.len() > s.len() {
        return false;
    }
    if t.len() == 0 {
        assert(s@.subrange(0, 0 + text@.len() as int) =~= text@);
        return true;
    }
    let mut i: usize = 0;
    while i <= s.len() - t.len()
        invariant
            0 <= i <= s@.len() - t@.len() + 1,
            t@ == text@,
            1 <= t@.len() <= s@.len(),
            forall|k: int| 0 <= k < i ==> #[trigger] s@.subrange(k, k + t@.len()) != text@,
        decreases s@.len() - t@.len() + 1 - i,
    {
        let window = slice_chars(s, i, i + t.len());
        if crate::apps::vec_eq(&window, &t) {
            return true;
        }
        i = i + 1;
    }
    false
}

/// Whether `s` ends with `suffix`.
pub open spec fn ends_with_text(s: Seq<char>, suffix: Seq<char>) -> bool {
    suffix.len() <= s.len() && s.skip(s.len() - suffix.len()) == suffix
}

/// Whether a path lies in a cloud-synchronised folder: a component that is
/// `onedrive` or ends with `drivefs`, case ignored.
pub open spec fn cloud_path(lowered: Seq<Seq<char>>) -> bool {
    exists|i: int| 0 <= i < lowered.len() && (#[trigger] lowered[i] == "onedrive"@ || ends_with_text(lowered[i], "drivefs"@))
}

fn cloud_path_exec(lowered: &Vec<Vec<char>>) -> (r: bool)
    ensures
        r == cloud_path(views_of_chars(lowered@)),
{
    let onedrive = chars_of("onedrive");
    let drivefs = chars_of("drivefs");
    let mut i: usize = 0;
    while i < lowered.len()
        invariant
            0 <= i <= lowered@.len(),
            onedrive@ == "onedrive"@,
            drivefs@ == "drivefs"@,
            forall|k: int| 0 <= k < i ==> !(#[trigger] views_of_chars(lowered@)[k] == "onedrive"@ || ends_with_text(views_of_chars(lowered@)[k], "drivefs"@)),
        decreases lowered@.len() - i,
    {
        let c = &lowered[i];
        let mut ends = false;
        if c.len() >= drivefs.len() {
            let tail = slice_chars(c, c.len() - drivefs.len(), c.len());
            assert(tail@ == c@.skip(c@.len() - drivefs@.len()));
            ends = crate::apps::vec_eq(&tail, &drivefs);
        }
        if crate::apps::vec_eq(c, &onedrive) || ends {
            assert(views_of_chars(lowered@)[i as int] == c@);
            return true;
        }
        i = i + 1;
    }
    false
}

/// The file name of a path: its last component, or nothing.
pub open spec fn file_name_of(components: Seq<String>) -> Seq<char> {
    if components.len() == 0 {
        seq![]
    } else {
        components.last()@
    }
}

/// The sensitivity and note of a large file.
pub open spec fn large_file_class(components: Seq<String>) -> (Sensitivity, Option<Seq<char>>) {
    let lowered = lower_components(components);
    let name = lower(file_name_of(components));
    let extension = extension_lower_spec(file_name_of(components));
    if any_component_in(lowered, crit_names()) || one_of(name, critname_names()) {
        (Sensitivity::Protected, Some("系统或应用关键路径中的文件，不应作为垃圾直接删除"@))
    } else if one_of(extension, vm_names()) {
        (Sensitivity::Protected, Some("可能承载虚拟机、子系统、邮件或数据库数据"@))
    } else if cloud_path(lowered) {
        (Sensitivity::Protected, Some("位于云同步目录；仅分析本地可用文件，操作前需确认同步状态"@))
    } else if one_of(extension, att_names()) || contains_text(name, "backup"@) || contains_text(name, "备份"@) {
        (Sensitivity::Attention, Some("安装介质、压缩包或备份并不等同于垃圾文件"@))
    } else {
        (Sensitivity::Normal, None)
    }
}

proof fn lemma_lower_view_eq(lowered: Seq<Vec<char>>, components: Seq<String>)
    requires
        lowered.len() == components.len(),
        forall|i: int| 0 <= i < lowered.len() ==> #[trigger] lowered[i]@ == lower_components(components)[i],
    ensures
        views_of_chars(lowered) == lower_components(components),
{
    assert(views_of_chars(lowered) =~= lower_components(components));
}

/// Classifies a large file by its path components (the file name last): what
/// kind of file it is, how sensitive it is, and why.
pub fn classify_large_file(components: &Vec<String>) -> (r: (String, Sensitivity, Option<String>))
    ensures
        r.0@ == file_type_spec(extension_lower_spec(file_name_of(components@))),
        r.1 == large_file_class(components@).0,
        match r.2 {
            Some(note) => large_file_class(components@).1 == Some(note@),
            None => large_file_class(components@).1 is None,
        },
{
    let file_name: Vec<char> = if components.len() == 0 {
        Vec::new()
    } else {
        chars_of(components[components.len() - 1].as_str())
    };
    assert(file_name@ == file_name_of(components@));
    let extension = extension_lower(&file_name);
    let name = lower_vec(&file_name);
    let lowered = lower_all(components);
    proof {
        lemma_lower_view_eq(lowered@, components@);
    }
    let file_type = file_type_of(&extension);
    let critical_path = any_component_in_exec(&lowered, &crit_list());
    let critical_name = is_one_of_vec(&name, &critname_list());
    if critical_path || critical_name {
        return (
            file_type,
            Sensitivity::Protected,
            Some("系统或应用关键路径中的文件，不应作为垃圾直接删除".to_string()),
        );
    }
    if is_one_of_vec(&extension, &vm_list()) {
        return (
            file_type,
            Sensitivity::Protected,
            Some("可能承载虚拟机、子系统、邮件或数据库数据".to_string()),
        );
    }
    if cloud_path_exec(&lowered) {
        return (
            file_type,
            Sensitivity::Protected,
            Some("位于云同步目录；仅分析本地可用文件，操作前需确认同步状态".to_string()),
        );
    }
    if is_one_of_vec(&extension, &att_list()) || contains_text_exec(&name, "backup")
        || contains_text_exec(&name, "备份") {
        return (
            file_type,
            Sensitivity::Attention,
            Some("安装介质、压缩包或备份并不等同于垃圾文件".to_string()),
        );
    }
    (file_type, Sensitivity::Normal, None)
}


/// A kind of content that storage is grouped into.
#[derive(Clone, Copy, Debug, PartialEq, Eq, Structural)]
pub enum CategoryKind {
    Apps,
    Media,
    System,
    Documents,
    Other,
}

/// How a kind of content is shown.
#[derive(Clone, Copy, Debug)]
pub struct CategoryDefinition {
    pub id: &'static str,
    pub label: &'static str,
    pub color: &'static str,
    pub description: &'static str,
    pub rank: u8,
}

pub open spec fn definition_of(kind: CategoryKind) -> CategoryDefinition {
    match kind {
        CategoryKind::Apps => CategoryDefinition { id: "apps", label: "应用与游戏", color: "#265dff", description: "已安装应用、游戏和应用数据", rank: 0 },
        CategoryKind::Media => CategoryDefinition { id: "media", label: "图片与视频", color: "#10a37f", description: "图片、视频和音频等用户媒体文件", rank: 1 },
        CategoryKind::System => CategoryDefinition { id: "system", label: "系统与保留", color: "#f0a02f", description: "Windows、恢复环境及系统保留内容", rank: 2 },
        CategoryKind::Documents => CategoryDefinition { id: "docs", label: "文档与项目", color: "#e05d6f", description: "文档、源代码、设计文件和项目归档", rank: 3 },
        CategoryKind::Other => CategoryDefinition { id: "other", label: "其他", color: "#7b67d8", description: "尚未归入以上类别的内容", rank: 4 },
    }
}

pub fn category_definition(kind: CategoryKind) -> (r: CategoryDefinition)
    ensures
        r == definition_of(kind),
{
    match kind {
        CategoryKind::Apps => CategoryDefinition { id: "apps", label: "应用与游戏", color: "#265dff", description: "已安装应用、游戏和应用数据", rank: 0 },
        CategoryKind::Media => CategoryDefinition { id: "media", label: "图片与视频", color: "#10a37f", description: "图片、视频和音频等用户媒体文件", rank: 1 },
        CategoryKind::System => CategoryDefinition { id: "system", label: "系统与保留", color: "#f0a02f", description: "Windows、恢复环境及系统保留内容", rank: 2 },
        CategoryKind::Documents => CategoryDefinition { id: "docs", label: "文档与项目", color: "#e05d6f", description: "文档、源代码、设计文件和项目归档", rank: 3 },
        CategoryKind::Other => CategoryDefinition { id: "other", label: "其他", color: "#7b67d8", description: "尚未归入以上类别的内容", rank: 4 },
    }
}

/// The kind of content a file is, by its path components (file name last):
/// system and application locations first, then the extension.
pub open spec fn category_of(components: Seq<String>) -> CategoryKind {
    let lowered = lower_components(components);
    let extension = extension_lower_spec(file_name_of(components));
    if any_component_in(lowered, sys_comp_names()) {
        CategoryKind::System
    } else if any_component_in(lowered, app_comp_names()) {
        CategoryKind::Apps
    } else if one_of(extension, media_names()) {
        CategoryKind::Media
    } else if one_of(extension, appx_names()) {
        CategoryKind::Apps
    } else if one_of(extension, docs_names()) {
        CategoryKind::Documents
    } else if one_of(extension, sysx_names()) {
        CategoryKind::System
    } else {
        CategoryKind::Other
    }
}

/// The rules by which content is sorted into kinds: a system location
/// wins over everything, an application location over every extension, then
/// media, program, document and system extensions in that order, and what
/// matches none of them is other content.
pub proof fn lemma_category_rules(components: Seq<String>)
    ensures
        ({
            let lowered = lower_components(components);
            let extension = extension_lower_spec(file_name_of(components));
            let in_system = any_component_in(lowered, sys_comp_names());
            let in_apps = any_component_in(lowered, app_comp_names());
            &&& in_system ==> category_of(components) == CategoryKind::System
            &&& !in_system && in_apps ==> category_of(components) == CategoryKind::Apps
            &&& !in_system && !in_apps && one_of(extension, media_names())
                ==> category_of(components) == CategoryKind::Media
            &&& !in_system && !in_apps && !one_of(extension, media_names()) && one_of(extension, appx_names())
                ==> category_of(components) == CategoryKind::Apps
            &&& !in_system && !in_apps && !one_of(extension, media_names()) && !one_of(extension, appx_names())
                && one_of(extension, docs_names()) ==> category_of(components) == CategoryKind::Documents
            &&& !in_system && !in_apps && !one_of(extension, media_names()) && !one_of(extension, appx_names())
                && !one_of(extension, docs_names()) && one_of(extension, sysx_names())
                ==> category_of(components) == CategoryKind::System
            &&& !in_system && !in_apps && !one_of(extension, media_names()) && !one_of(extension, appx_names())
                && !one_of(extension, docs_names()) && !one_of(extension, sysx_names())
                ==> category_of(components) == CategoryKind::Other
        }),
{
}

/// The kind of content a file is, by its path components. A document,
/// source or archive extension outside system and application locations,
/// that is no media or program extension, makes a document.
pub fn storage_category_kind(components: &Vec<String>) -> (r: CategoryKind)
    ensures
        r == category_of(components@),
        ({
            let lowered = lower_components(components@);
            let extension = extension_lower_spec(file_name_of(components@));
            !any_component_in(lowered, sys_comp_names()) && !any_component_in(lowered, app_comp_names())
                && !one_of(extension, media_names()) && !one_of(extension, appx_names())
                && one_of(extension, docs_names())
        }) ==> r == CategoryKind::Documents,
{
    let file_name: Vec<char> = if components.len() == 0 {
        Vec::new()
    } else {
        chars_of(components[components.len() - 1].as_str())
    };
    assert(file_name@ == file_name_of(components@));
    let extension = extension_lower(&file_name);
    let lowered = lower_all(components);
    proof {
        lemma_lower_view_eq(lowered@, components@);
    }
    let kind = if any_component_in_exec(&lowered, &sys_comp_list()) {
        CategoryKind::System
    } else if any_component_in_exec(&lowered, &app_comp_list()) {
        CategoryKind::Apps
    } else if is_one_of_vec(&extension, &media_list()) {
        CategoryKind::Media
    } else if is_one_of_vec(&extension, &appx_list()) {
        CategoryKind::Apps
    } else if is_one_of_vec(&extension, &docs_list()) {
        CategoryKind::Documents
    } else if is_one_of_vec(&extension, &sysx_list()) {
        CategoryKind::System
    } else {
        CategoryKind::Other
    };
    proof {
        lemma_category_rules(components@);
    }
    kind
}

/// How the kind of content a file is, by its path components, is shown.
pub fn classify_storage_category(components: &Vec<String>) -> (r: CategoryDefinition)
    ensures
        r == definition_of(category_of(components@)),
{
    category_definition(storage_category_kind(components))
}

/// Whether a path lies in a place whose files are meant to be thrown away.
pub open spec fn disposable_location(components: Seq<String>) -> bool {
    any_component_in(lower_components(components), disp_names())
}

pub fn is_disposable_location(components: &Vec<String>) -> (r: bool)
    ensures
        r == disposable_location(components@),
{
    let lowered = lower_all(components);
    proof {
        lemma_lower_view_eq(lowered@, components@);
    }
    any_component_in_exec(&lowered, &disp_list())
}

/// The colors given to ordinary folders.
pub open spec fn folder_colors() -> Seq<&'static str> {
    seq!["#265dff", "#10a37f", "#f0a02f", "#7b67d8", "#e05d6f", "#3a8ca8"]
}

/// The hash of a folder name's bytes that picks its color.
pub open spec fn color_hash(bytes: Seq<u8>) -> usize
    decreases bytes.len(),
{
    if bytes.len() == 0 {
        0
    } else {
        color_hash(bytes.drop_last()).wrapping_mul(31) ^ (bytes.last() as usize)
    }
}

/// A folder's color, picked from its lower-cased name.
pub fn directory_color(name: &str) -> (r: &'static str)
    ensures
        r == folder_colors()[(color_hash(name.spec_bytes()) % 6) as int],
{
    let bytes = name.as_bytes();
    let mut value: usize = 0;
    let mut i: usize = 0;
    while i < bytes.len()
        invariant
            0 <= i <= bytes@.len(),
            value == color_hash(bytes@.take(i as int)),
        decreases bytes@.len() - i,
    {
        assert(bytes@.take(i + 1).drop_last() =~= bytes@.take(i as int));
        value = value.wrapping_mul(31) ^ (bytes[i] as usize);
        i = i + 1;
    }
    assert(bytes@.take(bytes@.len() as int) =~= bytes@);
    let colors: [&'static str; 6] = ["#265dff", "#10a37f", "#f0a02f", "#7b67d8", "#e05d6f", "#3a8ca8"];
    assert(colors@ == folder_colors());
    colors[value % 6]
}

/// How a top-level folder is labeled and colored, by its lower-cased name.
pub open spec fn directory_kind(lowered: Seq<char>) -> Option<(&'static str, &'static str)> {
    if lowered == "users"@ {
        Some(("用户文件", "#265dff"))
    } else if lowered == "windows"@ {
        Some(("系统", "#f0a02f"))
    } else if lowered == "program files"@ || lowered == "program files (x86)"@ {
        Some(("应用", "#10a37f"))
    } else if lowered == "programdata"@ {
        Some(("应用数据", "#7b67d8"))
    } else if lowered == "recovery"@ || lowered == "system volume information"@ {
        Some(("受保护", "#82909f"))
    } else {
        None
    }
}

/// The label and color of a top-level folder named `name` (empty for a path
/// without a name).
pub fn classify_directory(name: &str) -> (r: (&'static str, &'static str))
    ensures
        match directory_kind(lower(name@)) {
            Some(kind) => r == kind,
            None => r.0 == "文件夹" && r.1 == folder_colors()[(color_hash(
                vstd::utf8::encode_utf8(lower(name@)),
            ) % 6) as int],
        },
{
    let lowered_chars = lower_vec(&chars_of(name));
    let lowered = crate::text::string_of(&lowered_chars, 0, lowered_chars.len());
    assert(lowered_chars@.subrange(0, lowered_chars@.len() as int) =~= lowered_chars@);
    let l = &lowered_chars;
    if crate::text::eq_exact(l, "users") {
        ("用户文件", "#265dff")
    } else if crate::text::eq_exact(l, "windows") {
        ("系统", "#f0a02f")
    } else if crate::text::eq_exact(l, "program files") || crate::text::eq_exact(l, "program files (x86)") {
        ("应用", "#10a37f")
    } else if crate::text::eq_exact(l, "programdata") {
        ("应用数据", "#7b67d8")
    } else if crate::text::eq_exact(l, "recovery") || crate::text::eq_exact(l, "system volume information") {
        ("受保护", "#82909f")
    } else {
        ("文件夹", directory_color(lowered.as_str()))
    }
}


/// The proleptic Gregorian date (year, month, day) of a day count since
/// 1970-01-01, by Howard Hinnant's civil-from-days formula.
pub open spec fn civil_from_days(days: int) -> (int, int, int) {
    let shifted = days + 719468;
    let era = shifted / 146097;
    let day_of_era = shifted - era * 146097;
    let year_of_era = (day_of_era - day_of_era / 1460 + day_of_era / 36524 - day_of_era / 146096) / 365;
    let year = year_of_era + era * 400;
    let day_of_year = day_of_era - (365 * year_of_era + year_of_era / 4 - year_of_era / 100);
    let month_part = (5 * day_of_year + 2) / 153;
    let day = day_of_year - (153 * month_part + 2) / 5 + 1;
    let month = if month_part < 10 {
        month_part + 3
    } else {
        month_part - 9
    };
    (if month <= 2 {
        year + 1
    } else {
        year
    }, month, day)
}

proof fn lemma_civil_bounds(days: int)
    requires
        0 <= days <= 0x1_0000_0000_0000,
    ensures
        civil_from_days(days).0 >= 0,
        civil_from_days(days).0 <= 0x1_0000_0000_0000,
        1 <= civil_from_days(days).1 <= 12,
        1 <= civil_from_days(days).2 <= 31,
{
    let shifted = days + 719468;
    let era = shifted / 146097;
    let day_of_era = shifted - era * 146097;
    assert(0 <= day_of_era < 146097) by (nonlinear_arith)
        requires
            shifted >= 0,
            era == shifted / 146097,
            day_of_era == shifted - era * 146097,
    ;
    assert(0 <= era <= shifted) by (nonlinear_arith)
        requires
            shifted >= 0,
            era == shifted / 146097,
    ;
    let year_of_era = (day_of_era - day_of_era / 1460 + day_of_era / 36524 - day_of_era / 146096) / 365;
    assert(0 <= year_of_era <= 399);
    let day_of_year = day_of_era - (365 * year_of_era + year_of_era / 4 - year_of_era / 100);
    assert(0 <= day_of_year <= 365);
    let month_part = (5 * day_of_year + 2) / 153;
    assert(0 <= month_part <= 11);
    let day = day_of_year - (153 * month_part + 2) / 5 + 1;
    assert(1 <= day <= 31) by (nonlinear_arith)
        requires
            0 <= day_of_year <= 365,
            month_part == (5 * day_of_year + 2) / 153,
            day == day_of_year - (153 * month_part + 2) / 5 + 1,
    ;
}

fn civil_date_from_unix_days(days: i64) -> (r: (i64, i64, i64))
    requires
        0 <= days <= 0x1_0000_0000_0000,
    ensures
        (r.0 as int, r.1 as int, r.2 as int) == civil_from_days(days as int),
{
    proof {
        lemma_civil_bounds(days as int);
    }
    let shifted = days + 719468;
    let era = shifted / 146097;
    assert(0 <= era <= shifted) by (nonlinear_arith)
        requires
            shifted >= 0,
            era == shifted / 146097,
    ;
    let day_of_era = shifted - era * 146097;
    assert(0 <= day_of_era < 146097) by (nonlinear_arith)
        requires
            shifted >= 0,
            era == shifted / 146097,
            day_of_era == shifted - era * 146097,
    ;
    let year_of_era = (day_of_era - day_of_era / 1460 + day_of_era / 36524 - day_of_era / 146096) / 365;
    let year = year_of_era + era * 400;
    let day_of_year = day_of_era - (365 * year_of_era + year_of_era / 4 - year_of_era / 100);
    let month_part = (5 * day_of_year + 2) / 153;
    let day = day_of_year - (153 * month_part + 2) / 5 + 1;
    let month = if month_part < 10 {
        month_part + 3
    } else {
        month_part - 9
    };
    (if month <= 2 {
        year + 1
    } else {
        year
    }, month, day)
}

/// Zeros before the decimal digits of `n` up to `width` characters.
pub open spec fn padded(n: nat, width: nat) -> Seq<char> {
    let digits = crate::cleanup_plan::executor::decimal(n);
    Seq::new((if width > digits.len() { width - digits.len() } else { 0 }) as nat, |i: int| '0') + digits
}

fn padded_text(n: u64, width: usize) -> (r: String)
    ensures
        r@ == padded(n as nat, width as nat),
{
    let digits = crate::cleanup_plan::executor::decimal_text_u64(n);
    let chars = chars_of(digits.as_str());
    let mut out = String::new();
    let mut k: usize = chars.len();
    let ghost pad_len: nat = (if width > digits@.len() { width - digits@.len() } else { 0 }) as nat;
    let mut written: usize = 0;
    while k < width
        invariant
            digits@ == crate::cleanup_plan::executor::decimal(n as nat),
            chars@ == digits@,
            k <= width || k == digits@.len(),
            k == digits@.len() + written,
            out@ == Seq::new(written as nat, |i: int| '0'),
        decreases width - k,
    {
        crate::text::push_char(&mut out, '0');
        assert(out@ =~= Seq::new((written + 1) as nat, |i: int| '0'));
        written = written + 1;
        k = k + 1;
    }
    assert(written == pad_len);
    let mut i: usize = 0;
    let ghost prefix = out@;
    while i < chars.len()
        invariant
            0 <= i <= chars@.len(),
            chars@ == digits@,
            out@ == prefix + chars@.take(i as int),
        decreases chars@.len() - i,
    {
        crate::text::push_char(&mut out, chars[i]);
        assert(chars@.take(i + 1) =~= chars@.take(i as int).push(chars@[i as int]));
        i = i + 1;
    }
    assert(chars@.take(chars@.len() as int) =~= chars@);
    out
}


/// A modification time as `YYYY-MM-DDTHH:MM:SSZ` (UTC), or `未知` when unknown.
pub open spec fn time_text(seconds: Option<u64>) -> Seq<char> {
    match seconds {
        None => "未知"@,
        Some(total) => {
            let (year, month, day) = civil_from_days((total / 86400) as int);
            let in_day = total % 86400;
            padded(year as nat, 4) + "-"@ + padded(month as nat, 2) + "-"@ + padded(day as nat, 2) + "T"@
                + padded((in_day / 3600) as nat, 2) + ":"@ + padded((in_day % 3600 / 60) as nat, 2) + ":"@
                + padded((in_day % 60) as nat, 2) + "Z"@
        },
    }
}

/// Formats a modification time given in whole seconds since the Unix epoch.
pub fn format_system_time(seconds: Option<u64>) -> (r: String)
    ensures
        r@ == time_text(seconds),
{
    let total = match seconds {
        None => return "未知".to_string(),
        Some(total) => total,
    };
    let days = total / 86400;
    proof {
        lemma_civil_bounds(days as int);
    }
    let (year, month, day) = civil_date_from_unix_days(days as i64);
    let in_day = total % 86400;
    let mut out = padded_text(year as u64, 4);
    vstd::string::StringExecFns::append(&mut out, "-");
    let t = padded_text(month as u64, 2);
    vstd::string::StringExecFns::append(&mut out, t.as_str());
    vstd::string::StringExecFns::append(&mut out, "-");
    let t = padded_text(day as u64, 2);
    vstd::string::StringExecFns::append(&mut out, t.as_str());
    vstd::string::StringExecFns::append(&mut out, "T");
    let t = padded_text(in_day / 3600, 2);
    vstd::string::StringExecFns::append(&mut out, t.as_str());
    vstd::string::StringExecFns::append(&mut out, ":");
    let t = padded_text(in_day % 3600 / 60, 2);
    vstd::string::StringExecFns::append(&mut out, t.as_str());
    vstd::string::StringExecFns::append(&mut out, ":");
    let t = padded_text(in_day % 60, 2);
    vstd::string::StringExecFns::append(&mut out, t.as_str());
    vstd::string::StringExecFns::append(&mut out, "Z");
    out
}


proof fn lemma_hex_len(bytes: Seq<u8>)
    ensures
        crate::text::hex_spec(bytes).len() == 2 * bytes.len(),
    decreases bytes.len(),
{
    if bytes.len() > 0 {
        lemma_hex_len(bytes.drop_last());
    }
}

/// A stable id for a path: the prefix, `-`, and the first twenty hexadecimal
/// digits of the SHA-256 of the path's ASCII-lower-cased text.
pub open spec fn stable_id_spec(prefix: Seq<char>, path: Seq<char>) -> Seq<char> {
    prefix + "-"@ + crate::text::hex_spec(crate::digest::sha256_digest(vstd::utf8::encode_utf8(lower(path)))).take(20)
}

pub fn stable_id(prefix: &str, path: &str) -> (r: String)
    ensures
        r@ == stable_id_spec(prefix@, path@),
{
    let lowered_chars = lower_vec(&chars_of(path));
    let lowered = crate::text::string_of(&lowered_chars, 0, lowered_chars.len());
    assert(lowered_chars@.subrange(0, lowered_chars@.len() as int) =~= lowered_chars@);
    let digest = crate::digest::sha256(lowered.as_str().as_bytes());
    let hex = crate::text::hex_bytes(digest.as_slice());
    proof {
        lemma_hex_len(digest@);
    }
    let hex_chars = chars_of(hex.as_str());
    let head = crate::text::string_of(&hex_chars, 0, 20);
    assert(hex_chars@.subrange(0, 20) =~= hex@.take(20));
    let mut id = prefix.to_string();
    vstd::string::StringExecFns::append(&mut id, "-");
    vstd::string::StringExecFns::append(&mut id, head.as_str());
    id
}

/// The order of large files: larger first, then by path with ASCII case
/// ignored, then by path exactly.
pub open spec fn large_before(a: LargeFileEntry, b: LargeFileEntry) -> bool {
    a.size_bytes > b.size_bytes || (a.size_bytes == b.size_bytes && crate::installed::key_lt(
        (lower(a.path@), a.path@),
        (lower(b.path@), b.path@),
    ))
}

/// Whether the entries are in large-file order.
pub open spec fn sorted_large(files: Seq<LargeFileEntry>) -> bool {
    forall|i: int, j: int| 0 <= i < j < files.len() ==> !large_before(#[trigger] files[j], #[trigger] files[i])
}

proof fn lemma_large_facts(a: LargeFileEntry, b: LargeFileEntry, c: LargeFileEntry)
    ensures
        large_before(a, b) ==> !large_before(b, a),
        large_before(a, b) && large_before(b, c) ==> large_before(a, c),
        !large_before(a, b) && !large_before(b, a) ==> (a.size_bytes == b.size_bytes && a.path@ == b.path@),
        !large_before(b, a) && large_before(a, c) ==> true,
{
    crate::installed::lemma_key_facts((lower(a.path@), a.path@), (lower(b.path@), b.path@), (lower(c.path@), c.path@));
}

fn large_less(a: &LargeFileEntry, b: &LargeFileEntry) -> (r: bool)
    ensures
        r == large_before(*a, *b),
{
    if a.size_bytes != b.size_bytes {
        return a.size_bytes > b.size_bytes;
    }
    let pa = chars_of(a.path.as_str());
    let pb = chars_of(b.path.as_str());
    let ka = (lower_vec(&pa), pa);
    let kb = (lower_vec(&pb), pb);
    crate::installed::key_less(&ka, &kb)
}

/// Sorts large files, larger first, then by path.
pub fn sort_large_files(files: Vec<LargeFileEntry>) -> (r: Vec<LargeFileEntry>)
    ensures
        r@.to_multiset() == files@.to_multiset(),
        sorted_large(r@),
{
    let mut out: Vec<LargeFileEntry> = Vec::new();
    let ghost all = files@;
    let mut rest = files;
    let mut taken: Ghost<Seq<LargeFileEntry>> = Ghost(Seq::empty());
    assert(all =~= taken@ + rest@);
    while rest.len() > 0
        invariant
            all == taken@ + rest@,
            out@.to_multiset() == taken@.to_multiset(),
            sorted_large(out@),
        decreases rest@.len(),
    {
        let ghost before_rest = rest@;
        let entry = rest.remove(0);
        let mut p: usize = 0;
        while p < out.len() && !large_less(&entry, &out[p])
            invariant
                0 <= p <= out@.len(),
                forall|j: int| 0 <= j < p ==> !large_before(entry, #[trigger] out@[j]),
            decreases out@.len() - p,
        {
            p = p + 1;
        }
        let ghost before = out@;
        proof {
            assert forall|a: int, b: int| 0 <= a < b < before.len() + 1 implies !large_before(
                #[trigger] before.insert(p as int, entry)[b],
                #[trigger] before.insert(p as int, entry)[a],
            ) by {
                let s = before.insert(p as int, entry);
                if a < p && b < p {
                    assert(s[a] == before[a] && s[b] == before[b]);
                } else if a > p && b > p {
                    assert(s[a] == before[a - 1] && s[b] == before[b - 1]);
                } else if a < p && b == p {
                    assert(s[a] == before[a]);
                } else if a < p && b > p {
                    assert(s[a] == before[a] && s[b] == before[b - 1]);
                } else {
                    assert(s[b] == before[b - 1]);
                    let kp = before[p as int];
                    let kb = before[b - 1];
                    lemma_large_facts(entry, kp, kb);
                    lemma_large_facts(kb, kp, entry);
                    lemma_large_facts(kp, kb, entry);
                    lemma_large_facts(entry, kb, kp);
                    if b - 1 > p {
                        assert(!large_before(kb, kp));
                    }
                }
            }
        }
        out.insert(p, entry);
        proof {
            vstd::seq_lib::to_multiset_insert(before, p as int, entry);
            vstd::seq_lib::to_multiset_build(taken@, entry);
            assert(before_rest[0] == entry);
            assert(all =~= taken@.push(entry) + rest@);
            taken@ = taken@.push(entry);
        }
    }
    assert(taken@ =~= all);
    out
}

/// Keeps the `max_results` first files in large-file order.
pub fn retain_largest(files: Vec<LargeFileEntry>, max_results: usize) -> (r: Vec<LargeFileEntry>)
    ensures
        exists|sorted: Seq<LargeFileEntry>|
            sorted.to_multiset() == files@.to_multiset() && sorted_large(sorted) && r@ == sorted.take(
                if sorted.len() > max_results {
                    max_results as int
                } else {
                    sorted.len() as int
                },
            ),
{
    let mut sorted = sort_large_files(files);
    let ghost full = sorted@;
    sorted.truncate(max_results);
    assert(full.to_multiset() == files@.to_multiset() && sorted_large(full));
    assert(sorted@ == full.take(if full.len() > max_results { max_results as int } else { full.len() as int }));
    sorted
}


/// The preference of a copy to be kept: protected copies first, then copies
/// outside disposable places, then the oldest, then by path with ASCII case
/// ignored. Smaller keys are preferred.
pub open spec fn keep_key(candidate: FileCandidate) -> (int, int, int, Seq<char>) {
    (
        if large_file_class(candidate.components@).0 == Sensitivity::Protected { 0 } else { 1 },
        if disposable_location(candidate.components@) { 1 } else { 0 },
        match candidate.modified_secs {
            Some(secs) => secs as int,
            None => u64::MAX as int,
        },
        lower(candidate.path@),
    )
}

pub open spec fn keep_lt(a: (int, int, int, Seq<char>), b: (int, int, int, Seq<char>)) -> bool {
    a.0 < b.0 || (a.0 == b.0 && (a.1 < b.1 || (a.1 == b.1 && (a.2 < b.2 || (a.2 == b.2
        && crate::installed::text_lt(a.3, b.3))))))
}

proof fn lemma_keep_facts(a: (int, int, int, Seq<char>), b: (int, int, int, Seq<char>), c: (int, int, int, Seq<char>))
    ensures
        keep_lt(a, b) ==> !keep_lt(b, a),
        keep_lt(a, b) && keep_lt(b, c) ==> keep_lt(a, c),
        !keep_lt(a, b) && !keep_lt(b, a) ==> a == b,
{
    crate::installed::lemma_text_lt_total(a.3, b.3);
    crate::installed::lemma_text_lt_irreflexive(a.3);
    if crate::installed::text_lt(a.3, b.3) {
        crate::installed::lemma_text_lt_asymmetric(a.3, b.3);
    }
    if crate::installed::text_lt(a.3, b.3) && crate::installed::text_lt(b.3, c.3) {
        crate::installed::lemma_text_lt_transitive(a.3, b.3, c.3);
    }
}

fn keep_key_of(candidate: &FileCandidate) -> (r: (u8, u8, u64, Vec<char>))
    ensures
        (r.0 as int, r.1 as int, r.2 as int, r.3@) == keep_key(*candidate),
{
    let (_, sensitivity, _) = classify_large_file(&candidate.components);
    let protected: u8 = if sensitivity == Sensitivity::Protected { 0 } else { 1 };
    let disposable: u8 = if is_disposable_location(&candidate.components) { 1 } else { 0 };
    let secs: u64 = match candidate.modified_secs {
        Some(secs) => secs,
        None => u64::MAX,
    };
    (protected, disposable, secs, lower_vec(&chars_of(candidate.path.as_str())))
}

fn keep_less(a: &(u8, u8, u64, Vec<char>), b: &(u8, u8, u64, Vec<char>)) -> (r: bool)
    ensures
        r == keep_lt((a.0 as int, a.1 as int, a.2 as int, a.3@), (b.0 as int, b.1 as int, b.2 as int, b.3@)),
{
    if a.0 != b.0 {
        return a.0 < b.0;
    }
    if a.1 != b.1 {
        return a.1 < b.1;
    }
    if a.2 != b.2 {
        return a.2 < b.2;
    }
    crate::installed::text_less(&a.3, &b.3)
}

/// Whether a copy lies where the large-file rules protect it.
pub open spec fn protected_copy(candidate: FileCandidate) -> bool {
    large_file_class(candidate.components@).0 == Sensitivity::Protected
}

/// Where any of the copies is protected, the one at `r` is protected too.
#[verifier::opaque]
pub open spec fn keeps_protected_copy(candidates: Seq<DuplicateCandidate>, r: int) -> bool {
    (exists|j: int| 0 <= j < candidates.len() && protected_copy(#[trigger] candidates[j].candidate))
        ==> protected_copy(candidates[r].candidate)
}

/// When a copy was last changed, an unknown time counting as the latest.
pub open spec fn modified_rank(candidate: FileCandidate) -> int {
    match candidate.modified_secs {
        Some(secs) => secs as int,
        None => u64::MAX as int,
    }
}

/// Among the copies as protected as the one at `r`: where one lies outside
/// disposable places, so does the one at `r`; and of those alike in both,
/// none was changed before it.
#[verifier::opaque]
pub open spec fn keeps_preferred_copy(candidates: Seq<DuplicateCandidate>, r: int) -> bool {
    &&& forall|j: int| 0 <= j < candidates.len()
        && protected_copy(#[trigger] candidates[j].candidate) == protected_copy(candidates[r].candidate)
        && !disposable_location(candidates[j].candidate.components@)
        ==> !disposable_location(candidates[r].candidate.components@)
    &&& forall|j: int| 0 <= j < candidates.len()
        && protected_copy(#[trigger] candidates[j].candidate) == protected_copy(candidates[r].candidate)
        && disposable_location(candidates[j].candidate.components@) == disposable_location(candidates[r].candidate.components@)
        ==> modified_rank(candidates[r].candidate) <= modified_rank(candidates[j].candidate)
}

/// The copy to keep among identical files: the first one with the smallest
/// keep key (0 for an empty list). Where any copy is protected, a protected
/// copy is the one kept, so a protected file is never offered for removal
/// in favour of an unprotected one.
pub fn choose_keep_candidate(candidates: &Vec<DuplicateCandidate>) -> (r: usize)
    ensures
        candidates@.len() == 0 ==> r == 0,
        keeps_protected_copy(candidates@, r as int),
        candidates@.len() > 0 ==> keeps_preferred_copy(candidates@, r as int),
        candidates@.len() > 0 ==> {
            &&& r < candidates@.len()
            &&& forall|j: int| 0 <= j < candidates@.len() ==> !keep_lt(keep_key(#[trigger] candidates@[j].candidate), keep_key(candidates@[r as int].candidate))
            &&& forall|j: int| 0 <= j < r ==> keep_lt(keep_key(candidates@[r as int].candidate), keep_key(#[trigger] candidates@[j].candidate))
        },
{
    if candidates.len() == 0 {
        proof {
            reveal(keeps_protected_copy);
        }
        return 0;
    }
    let mut best: usize = 0;
    let mut best_key = keep_key_of(&candidates[0].candidate);
    let mut i: usize = 1;
    proof {
        lemma_keep_facts(keep_key(candidates@[0].candidate), keep_key(candidates@[0].candidate), keep_key(candidates@[0].candidate));
    }
    while i < candidates.len()
        invariant
            1 <= i <= candidates@.len(),
            best < i,
            (best_key.0 as int, best_key.1 as int, best_key.2 as int, best_key.3@) == keep_key(candidates@[best as int].candidate),
            forall|j: int| 0 <= j < i ==> !keep_lt(keep_key(#[trigger] candidates@[j].candidate), keep_key(candidates@[best as int].candidate)),
            forall|j: int| 0 <= j < best ==> keep_lt(keep_key(candidates@[best as int].candidate), keep_key(#[trigger] candidates@[j].candidate)),
        decreases candidates@.len() - i,
    {
        let key = keep_key_of(&candidates[i].candidate);
        if keep_less(&key, &best_key) {
            proof {
                let ki = keep_key(candidates@[i as int].candidate);
                let kb = keep_key(candidates@[best as int].candidate);
                assert forall|j: int| 0 <= j < i + 1 implies !keep_lt(keep_key(#[trigger] candidates@[j].candidate), ki) by {
                    let kj = keep_key(candidates@[j].candidate);
                    lemma_keep_facts(kj, ki, kb);
                    lemma_keep_facts(ki, kb, kj);
                    lemma_keep_facts(ki, ki, ki);
                }
                assert forall|j: int| 0 <= j < i implies keep_lt(ki, keep_key(#[trigger] candidates@[j].candidate)) by {
                    let kj = keep_key(candidates@[j].candidate);
                    lemma_keep_facts(kj, kb, ki);
                    lemma_keep_facts(ki, kb, kj);
                    lemma_keep_facts(kb, kj, ki);
                }
            }
            best = i;
            best_key = key;
        }
        i = i + 1;
    }
    proof {
        reveal(keeps_protected_copy);
        if exists|j: int| 0 <= j < candidates@.len() && protected_copy(#[trigger] candidates@[j].candidate) {
            let j = choose|j: int| 0 <= j < candidates@.len() && protected_copy(#[trigger] candidates@[j].candidate);
            assert(!keep_lt(keep_key(candidates@[j].candidate), keep_key(candidates@[best as int].candidate)));
        }
        reveal(keeps_preferred_copy);
        assert forall|j: int| 0 <= j < candidates@.len()
            && protected_copy(#[trigger] candidates@[j].candidate) == protected_copy(candidates@[best as int].candidate)
            implies {
                &&& !disposable_location(candidates@[j].candidate.components@)
                    ==> !disposable_location(candidates@[best as int].candidate.components@)
                &&& disposable_location(candidates@[j].candidate.components@)
                    == disposable_location(candidates@[best as int].candidate.components@)
                    ==> modified_rank(candidates@[best as int].candidate) <= modified_rank(candidates@[j].candidate)
            } by {
            assert(!keep_lt(keep_key(candidates@[j].candidate), keep_key(candidates@[best as int].candidate)));
        }
    }
    best
}


/// Whether byte sequence `a` sorts before `b`.
pub open spec fn bytes_lt(a: Seq<u8>, b: Seq<u8>) -> bool
    decreases a.len(),
{
    if a.len() == 0 {
        b.len() > 0
    } else if b.len() == 0 {
        false
    } else if a[0] != b[0] {
        a[0] < b[0]
    } else {
        bytes_lt(a.drop_first(), b.drop_first())
    }
}

proof fn lemma_bytes_lt_facts(a: Seq<u8>, b: Seq<u8>, c: Seq<u8>)
    ensures
        !bytes_lt(a, a),
        bytes_lt(a, b) && bytes_lt(b, c) ==> bytes_lt(a, c),
        a == b || bytes_lt(a, b) || bytes_lt(b, a),
    decreases a.len(),
{
    if a.len() > 0 && b.len() > 0 && c.len() > 0 {
        lemma_bytes_lt_facts(a.drop_first(), b.drop_first(), c.drop_first());
    } else if a.len() > 0 && b.len() > 0 {
        lemma_bytes_lt_facts(a.drop_first(), b.drop_first(), b.drop_first());
    } else if a.len() > 0 {
        lemma_bytes_lt_facts(a.drop_first(), a.drop_first(), a.drop_first());
    }
    if a.len() > 0 && b.len() > 0 && a[0] == b[0] && a.drop_first() == b.drop_first() {
        assert(a =~= seq![a[0]] + a.drop_first());
        assert(b =~= seq![b[0]] + b.drop_first());
    }
    if a.len() == 0 && b.len() == 0 {
        assert(a =~= b);
    }
}

fn bytes_less(a: &Vec<u8>, b: &Vec<u8>) -> (r: bool)
    ensures
        r == bytes_lt(a@, b@),
{
    let mut i: usize = 0;
    assert(a@.skip(0) =~= a@);
    assert(b@.skip(0) =~= b@);
    while i < a.len() && i < b.len()
        invariant
            0 <= i <= a@.len(),
            i <= b@.len(),
            bytes_lt(a@, b@) == bytes_lt(a@.skip(i as int), b@.skip(i as int)),
        decreases a@.len() - i,
    {
        if a[i] != b[i] {
            return a[i] < b[i];
        }
        assert(a@.skip(i as int).drop_first() =~= a@.skip(i + 1));
        assert(b@.skip(i as int).drop_first() =~= b@.skip(i + 1));
        i = i + 1;
    }
    i == a.len() && i < b.len()
}

/// A file whose full content matched others, with what the user is shown of it.
#[derive(Clone, Debug)]
pub struct DuplicateCandidate {
    pub candidate: FileCandidate,
    pub name: String,
    pub display_path: String,
}

/// Files that share one full-content SHA-256 digest.
#[derive(Clone, Debug)]
pub struct VerifiedGroup {
    pub hash: Vec<u8>,
    pub files: Vec<DuplicateCandidate>,
}

/// The size by which a group is ordered: that of its first file.
pub open spec fn group_size(group: VerifiedGroup) -> int {
    if group.files@.len() == 0 {
        0
    } else {
        group.files@[0].candidate.size_bytes as int
    }
}

/// The order of verified groups: larger files first, then by digest.
pub open spec fn group_before(a: VerifiedGroup, b: VerifiedGroup) -> bool {
    group_size(a) > group_size(b) || (group_size(a) == group_size(b) && bytes_lt(a.hash@, b.hash@))
}

proof fn lemma_group_facts(a: VerifiedGroup, b: VerifiedGroup, c: VerifiedGroup)
    ensures
        group_before(a, b) ==> !group_before(b, a),
        group_before(a, b) && group_before(b, c) ==> group_before(a, c),
        !group_before(a, b) && !group_before(b, a) ==> group_size(a) == group_size(b) && a.hash@ == b.hash@,
{
    lemma_bytes_lt_facts(a.hash@, b.hash@, c.hash@);
    lemma_bytes_lt_facts(a.hash@, b.hash@, a.hash@);
    lemma_bytes_lt_facts(b.hash@, a.hash@, c.hash@);
    lemma_bytes_lt_facts(b.hash@, c.hash@, a.hash@);
    lemma_bytes_lt_facts(a.hash@, c.hash@, b.hash@);
}

fn group_less(a: &VerifiedGroup, b: &VerifiedGroup) -> (r: bool)
    ensures
        r == group_before(*a, *b),
{
    let sa: u64 = if a.files.len() == 0 { 0 } else { a.files[0].candidate.size_bytes };
    let sb: u64 = if b.files.len() == 0 { 0 } else { b.files[0].candidate.size_bytes };
    if sa != sb {
        return sa > sb;
    }
    bytes_less(&a.hash, &b.hash)
}

/// Sorts verified groups: larger files first, then by digest.
pub fn sort_verified_groups(groups: Vec<VerifiedGroup>) -> (r: Vec<VerifiedGroup>)
    ensures
        r@.to_multiset() == groups@.to_multiset(),
        forall|i: int, j: int| 0 <= i < j < r@.len() ==> !group_before(#[trigger] r@[j], #[trigger] r@[i]),
{
    let mut out: Vec<VerifiedGroup> = Vec::new();
    let ghost all = groups@;
    let mut rest = groups;
    let mut taken: Ghost<Seq<VerifiedGroup>> = Ghost(Seq::empty());
    assert(all =~= taken@ + rest@);
    while rest.len() > 0
        invariant
            all == taken@ + rest@,
            out@.to_multiset() == taken@.to_multiset(),
            forall|i: int, j: int| 0 <= i < j < out@.len() ==> !group_before(#[trigger] out@[j], #[trigger] out@[i]),
        decreases rest@.len(),
    {
        let ghost before_rest = rest@;
        let group = rest.remove(0);
        let mut p: usize = 0;
        while p < out.len() && !group_less(&group, &out[p])
            invariant
                0 <= p <= out@.len(),
                forall|j: int| 0 <= j < p ==> !group_before(group, #[trigger] out@[j]),
            decreases out@.len() - p,
        {
            p = p + 1;
        }
        let ghost before = out@;
        proof {
            assert forall|a: int, b: int| 0 <= a < b < before.len() + 1 implies !group_before(
                #[trigger] before.insert(p as int, group)[b],
                #[trigger] before.insert(p as int, group)[a],
            ) by {
                let s = before.insert(p as int, group);
                if a < p && b < p {
                    assert(s[a] == before[a] && s[b] == before[b]);
                } else if a > p && b > p {
                    assert(s[a] == before[a - 1] && s[b] == before[b - 1]);
                } else if a < p && b == p {
                    assert(s[a] == before[a]);
                } else if a < p && b > p {
                    assert(s[a] == before[a] && s[b] == before[b - 1]);
                } else {
                    assert(s[b] == before[b - 1]);
                    let kp = before[p as int];
                    let kb = before[b - 1];
                    lemma_group_facts(group, kp, kb);
                    lemma_group_facts(kb, kp, group);
                    lemma_group_facts(kp, kb, group);
                    lemma_group_facts(group, kb, kp);
                    if b - 1 > p {
                        assert(!group_before(kb, kp));
                    }
                }
            }
        }
        out.insert(p, group);
        proof {
            vstd::seq_lib::to_multiset_insert(before, p as int, group);
            vstd::seq_lib::to_multiset_build(taken@, group);
            assert(before_rest[0] == group);
            assert(all =~= taken@.push(group) + rest@);
            taken@ = taken@.push(group);
        }
    }
    assert(taken@ =~= all);
    out
}

/// The order of a group's files: by path with ASCII case ignored, then by
/// path exactly.
pub open spec fn path_before(a: DuplicateCandidate, b: DuplicateCandidate) -> bool {
    crate::installed::key_lt((lower(a.candidate.path@), a.candidate.path@), (lower(b.candidate.path@), b.candidate.path@))
}

fn path_less(a: &DuplicateCandidate, b: &DuplicateCandidate) -> (r: bool)
    ensures
        r == path_before(*a, *b),
{
    let pa = chars_of(a.candidate.path.as_str());
    let pb = chars_of(b.candidate.path.as_str());
    let ka = (lower_vec(&pa), pa);
    let kb = (lower_vec(&pb), pb);
    crate::installed::key_less(&ka, &kb)
}

/// Sorts a group's files by path.
pub fn sort_by_path(files: Vec<DuplicateCandidate>) -> (r: Vec<DuplicateCandidate>)
    ensures
        r@.to_multiset() == files@.to_multiset(),
        forall|i: int, j: int| 0 <= i < j < r@.len() ==> !path_before(#[trigger] r@[j], #[trigger] r@[i]),
{
    let mut out: Vec<DuplicateCandidate> = Vec::new();
    let ghost all = files@;
    let mut rest = files;
    let mut taken: Ghost<Seq<DuplicateCandidate>> = Ghost(Seq::empty());
    assert(all =~= taken@ + rest@);
    while rest.len() > 0
        invariant
            all == taken@ + rest@,
            out@.to_multiset() == taken@.to_multiset(),
            forall|i: int, j: int| 0 <= i < j < out@.len() ==> !path_before(#[trigger] out@[j], #[trigger] out@[i]),
        decreases rest@.len(),
    {
        let ghost before_rest = rest@;
        let file = rest.remove(0);
        let mut p: usize = 0;
        while p < out.len() && !path_less(&file, &out[p])
            invariant
                0 <= p <= out@.len(),
                forall|j: int| 0 <= j < p ==> !path_before(file, #[trigger] out@[j]),
            decreases out@.len() - p,
        {
            p = p + 1;
        }
        let ghost before = out@;
        proof {
            assert forall|a: int, b: int| 0 <= a < b < before.len() + 1 implies !path_before(
                #[trigger] before.insert(p as int, file)[b],
                #[trigger] before.insert(p as int, file)[a],
            ) by {
                let s = before.insert(p as int, file);
                if a < p && b < p {
                    assert(s[a] == before[a] && s[b] == before[b]);
                } else if a > p && b > p {
                    assert(s[a] == before[a - 1] && s[b] == before[b - 1]);
                } else if a < p && b == p {
                    assert(s[a] == before[a]);
                } else if a < p && b > p {
                    assert(s[a] == before[a] && s[b] == before[b - 1]);
                } else {
                    assert(s[b] == before[b - 1]);
                    let kf = (lower(file.candidate.path@), file.candidate.path@);
                    let kp = (lower(before[p as int].candidate.path@), before[p as int].candidate.path@);
                    let kb = (lower(before[b - 1].candidate.path@), before[b - 1].candidate.path@);
                    crate::installed::lemma_key_facts(kf, kp, kb);
                    crate::installed::lemma_key_facts(kb, kp, kf);
                    crate::installed::lemma_key_facts(kp, kb, kf);
                    crate::installed::lemma_key_facts(kf, kb, kp);
                    if b - 1 > p {
                        assert(!path_before(before[b - 1], before[p as int]));
                    }
                }
            }
        }
        out.insert(p, file);
        proof {
            vstd::seq_lib::to_multiset_insert(before, p as int, file);
            vstd::seq_lib::to_multiset_build(taken@, file);
            assert(before_rest[0] == file);
            assert(all =~= taken@.push(file) + rest@);
            taken@ = taken@.push(file);
        }
    }
    assert(taken@ =~= all);
    out
}


/// `a * b`, saturating at the largest `u64`.
pub open spec fn saturating_product(a: u64, b: u64) -> u64 {
    if a * b > u64::MAX {
        u64::MAX
    } else {
        (a * b) as u64
    }
}

/// The text that names a group: `duplicate-`, the first sixteen hexadecimal
/// digits of its digest, `-` and its file size.
pub open spec fn group_id_spec(hash: Seq<u8>, size: u64) -> Seq<char> {
    "duplicate-"@ + crate::text::hex_spec(hash).take(16) + "-"@ + crate::cleanup_plan::executor::decimal(size as nat)
}

/// Whether a member shows a candidate as the user sees it.
pub open spec fn member_of(member: DuplicateMember, file: DuplicateCandidate, keep: bool) -> bool {
    &&& member.id@ == stable_id_spec("duplicate-member"@, file.candidate.path@)
    &&& member.name == file.name
    &&& member.path == file.display_path
    &&& member.modified_at@ == time_text(file.candidate.modified_secs)
    &&& member.suggested_keep == keep
    &&& member.protected == (large_file_class(file.candidate.components@).0 == Sensitivity::Protected)
}

fn build_member(file: &DuplicateCandidate, keep: bool) -> (member: DuplicateMember)
    ensures
        member_of(member, *file, keep),
{
    let (_, sensitivity, _) = classify_large_file(&file.candidate.components);
    DuplicateMember {
        id: stable_id("duplicate-member", file.candidate.path.as_str()),
        name: file.name.clone(),
        path: file.display_path.clone(),
        modified_at: format_system_time(file.candidate.modified_secs),
        suggested_keep: keep,
        protected: sensitivity == Sensitivity::Protected,
    }
}

/// How many members the groups hold in all.
pub open spec fn member_total(groups: Seq<DuplicateGroup>) -> int
    decreases groups.len(),
{
    if groups.len() == 0 {
        0
    } else {
        member_total(groups.drop_last()) + groups.last().members@.len()
    }
}

/// The space that removing every copy but one would free, in all.
pub open spec fn reclaimable_total(groups: Seq<DuplicateGroup>) -> int
    decreases groups.len(),
{
    if groups.len() == 0 {
        0
    } else {
        reclaimable_total(groups.drop_last()) + groups.last().reclaimable_bytes
    }
}

/// Whether a reported group is sound: at least two members, exactly one of
/// them suggested for keeping, and its figures derived from its size and
/// digest.
pub open spec fn well_formed_group(group: DuplicateGroup, verified: Seq<VerifiedGroup>) -> bool {
    &&& group.members@.len() >= 2
    &&& group.members@.len() <= group.total_members
    &&& group.match_kind == DuplicateMatch::FullHash
    &&& group.reclaimable_bytes == saturating_product(group.size_bytes, (group.members@.len() - 1) as u64)
    &&& exists|k: int| 0 <= k < group.members@.len() && #[trigger] group.members@[k].suggested_keep
        && forall|j: int| 0 <= j < group.members@.len() && j != k ==> !group.members@[j].suggested_keep
    &&& exists|v: int| 0 <= v < verified.len() && #[trigger] verified[v].hash@.len() == 32
        && group.hash@ == "SHA-256 "@ + crate::text::hex_spec(verified[v].hash@)
        && group.id@ == group_id_spec(verified[v].hash@, group.size_bytes)
        && group.total_members == verified[v].files@.len()
}

/// Whether verified groups stand in the order in which they are reported:
/// larger files first, then by digest.
pub open spec fn groups_sorted(s: Seq<VerifiedGroup>) -> bool {
    forall|i: int, j: int| 0 <= i < j < s.len() ==> !group_before(#[trigger] s[j], #[trigger] s[i])
}

/// Whether `s` holds the verified groups in the order in which they are
/// reported.
pub open spec fn report_order(s: Seq<VerifiedGroup>, verified: Seq<VerifiedGroup>) -> bool {
    s.to_multiset() == verified.to_multiset() && groups_sorted(s)
}

/// Whether `p` holds a group's files ordered by path.
pub open spec fn path_order(p: Seq<DuplicateCandidate>, files: Seq<DuplicateCandidate>) -> bool {
    &&& p.to_multiset() == files.to_multiset()
    &&& forall|i: int, j: int| 0 <= i < j < p.len() ==> !path_before(#[trigger] p[j], #[trigger] p[i])
}

/// Which groups are reported, in order, and how many members of each, with
/// `groups_left` groups and `members_left` members still allowed; and whether
/// a limit cut the report short.
pub open spec fn duplicate_plan(s: Seq<VerifiedGroup>, groups_left: int, members_left: int) -> (Seq<(VerifiedGroup, int)>, bool)
    decreases s.len(),
{
    if s.len() == 0 {
        (seq![], false)
    } else if groups_left <= 0 || members_left < 2 {
        (seq![], true)
    } else {
        let n = s[0].files@.len() as int;
        let truncated = n > members_left;
        let taken = if truncated { members_left } else { n };
        if taken < 2 {
            let rest = duplicate_plan(s.drop_first(), groups_left, members_left);
            (rest.0, rest.1 || truncated)
        } else {
            let rest = duplicate_plan(s.drop_first(), groups_left - 1, members_left - taken);
            (seq![(s[0], taken)] + rest.0, rest.1 || truncated)
        }
    }
}

/// Whether `k` is the first of the files with the smallest keep key.
pub open spec fn first_preferred(files: Seq<DuplicateCandidate>, k: int) -> bool {
    &&& 0 <= k < files.len()
    &&& forall|j: int| 0 <= j < files.len() ==> !keep_lt(keep_key(#[trigger] files[j].candidate), keep_key(files[k].candidate))
    &&& forall|j: int| 0 <= j < k ==> keep_lt(keep_key(files[k].candidate), keep_key(#[trigger] files[j].candidate))
}

/// Whether a reported group shows exactly `files` of the verified group
/// `source`, with the first preferred copy suggested for keeping.
pub open spec fn reports_files(group: DuplicateGroup, source: VerifiedGroup, files: Seq<DuplicateCandidate>) -> bool {
    &&& group.members@.len() == files.len()
    &&& group.total_members == source.files@.len()
    &&& group.size_bytes == files[0].candidate.size_bytes
    &&& group.reclaimable_bytes == saturating_product(group.size_bytes, (files.len() - 1) as u64)
    &&& group.match_kind == DuplicateMatch::FullHash
    &&& group.hash@ == "SHA-256 "@ + crate::text::hex_spec(source.hash@)
    &&& group.id@ == group_id_spec(source.hash@, group.size_bytes)
    &&& exists|k: int| #[trigger] first_preferred(files, k)
        && forall|j: int| 0 <= j < files.len() ==> member_of(#[trigger] group.members@[j], files[j], j == k)
}

/// Whether a reported group shows the first `taken` files, by path, of the
/// verified group `source`.
pub open spec fn reports_group(group: DuplicateGroup, source: VerifiedGroup, taken: int) -> bool {
    exists|p: Seq<DuplicateCandidate>| #[trigger] path_order(p, source.files@) && reports_files(group, source, p.take(taken))
}

/// Whether `groups` are the groups that the plan over `s` reports.
pub open spec fn plan_reports(groups: Seq<DuplicateGroup>, s: Seq<VerifiedGroup>, max_groups: usize, max_members: usize) -> bool {
    let plan = duplicate_plan(s, max_groups as int, max_members as int);
    &&& groups.len() == plan.0.len()
    &&& forall|g: int| 0 <= g < groups.len() ==> reports_group(#[trigger] groups[g], plan.0[g].0, plan.0[g].1)
}

/// Whether the assembled groups are those that the plan over `s` reports.
pub open spec fn assembled_from(r: AssembledDuplicates, s: Seq<VerifiedGroup>, max_groups: usize, max_members: usize) -> bool {
    &&& plan_reports(r.groups@, s, max_groups, max_members)
    &&& r.limit_reached == duplicate_plan(s, max_groups as int, max_members as int).1
}

/// The groups of identical files that a duplicate scan reports.
#[derive(Clone, Debug)]
pub struct AssembledDuplicates {
    pub groups: Vec<DuplicateGroup>,
    pub reclaimable_bytes: u64,
    pub limit_reached: bool,
}

proof fn lemma_saturating_add_step(total: int, prev: int, x: int, max: int)
    requires
        0 <= prev,
        0 <= x,
        total == (if prev > max { max } else { prev }),
    ensures
        (if total + x > max { max } else { total + x }) == (if prev + x > max { max } else { prev + x }),
{
}

/// Turns the verified groups into the reported ones, largest files first and
/// then by digest: at most `max_groups` groups and `max_members` members in
/// all, each group's members ordered by path, with the copy to keep marked.
#[verifier::rlimit(40)]
pub fn assemble_duplicate_groups(verified: Vec<VerifiedGroup>, max_groups: usize, max_members: usize) -> (r: AssembledDuplicates)
    requires
        forall|k: int| 0 <= k < verified@.len() ==> #[trigger] verified@[k].hash@.len() == 32,
    ensures
        r.groups@.len() <= max_groups,
        member_total(r.groups@) <= max_members,
        forall|g: int| 0 <= g < r.groups@.len() ==> well_formed_group(#[trigger] r.groups@[g], verified@),
        r.reclaimable_bytes == (if reclaimable_total(r.groups@) > u64::MAX { u64::MAX as int } else { reclaimable_total(r.groups@) }),
        exists|s: Seq<VerifiedGroup>| #[trigger] report_order(s, verified@) && assembled_from(r, s, max_groups, max_members),
{
    let ghost input = verified@;
    let sorted = sort_verified_groups(verified);
    let ghost order = sorted@;
    let ghost mut done: Seq<(VerifiedGroup, int)> = seq![];
    let mut rest = sorted;
    let mut groups: Vec<DuplicateGroup> = Vec::new();
    let mut returned: usize = 0;
    let mut reclaimable: u64 = 0;
    let mut limit_reached = false;
    let mut stop = false;
    proof {
        assert forall|k: int| 0 <= k < rest@.len() implies input.contains(#[trigger] rest@[k]) by {
            vstd::seq_lib::to_multiset_contains(rest@, rest@[k]);
            vstd::seq_lib::to_multiset_contains(input, rest@[k]);
            assert(rest@.contains(rest@[k]));
        }
    }
    assert(done + duplicate_plan(order, max_groups as int, max_members as int).0
        =~= duplicate_plan(order, max_groups as int, max_members as int).0);
    while rest.len() > 0 && !stop
        invariant
            groups@.len() <= max_groups,
            member_total(groups@) == returned,
            returned <= max_members,
            forall|k: int| 0 <= k < rest@.len() ==> input.contains(#[trigger] rest@[k]),
            forall|k: int| 0 <= k < input.len() ==> #[trigger] input[k].hash@.len() == 32,
            forall|g: int| 0 <= g < groups@.len() ==> well_formed_group(#[trigger] groups@[g], input),
            reclaimable == (if reclaimable_total(groups@) > u64::MAX { u64::MAX as int } else { reclaimable_total(groups@) }),
            reclaimable_total(groups@) >= 0,
            done.len() == groups@.len(),
            forall|g: int| 0 <= g < groups@.len() ==> reports_group(#[trigger] groups@[g], done[g].0, done[g].1),
            !stop ==> duplicate_plan(order, max_groups as int, max_members as int).0
                == done + duplicate_plan(rest@, max_groups - groups@.len(), max_members - returned).0,
            !stop ==> duplicate_plan(order, max_groups as int, max_members as int).1
                == (limit_reached || duplicate_plan(rest@, max_groups - groups@.len(), max_members - returned).1),
            stop ==> duplicate_plan(order, max_groups as int, max_members as int).0 == done,
            stop ==> duplicate_plan(order, max_groups as int, max_members as int).1 == limit_reached,
        decreases rest@.len(), if stop { 0int } else { 1int },
    {
        if groups.len() >= max_groups {
            limit_reached = true;
            stop = true;
            assert(done + seq![] =~= done);
        } else {
            let remaining = max_members - returned;
            if remaining < 2 {
                limit_reached = true;
                stop = true;
                assert(done + seq![] =~= done);
            } else {
                let ghost rest_before = rest@;
                let group = rest.remove(0);
                proof {
                    assert(input.contains(rest_before[0]));
                    assert forall|k: int| 0 <= k < rest@.len() implies input.contains(#[trigger] rest@[k]) by {
                        assert(rest@[k] == rest_before[k + 1]);
                    }
                }
                let ghost v = choose|v: int| 0 <= v < input.len() && input[v] == group;
                let ghost source = group;
                let ghost groups_left = max_groups - groups@.len();
                let ghost members_left = remaining as int;
                let ghost truncated = group.files@.len() > remaining;
                let total_members = group.files.len();
                let mut files = sort_by_path(group.files);
                let ghost by_path = files@;
                proof {
                    vstd::seq_lib::to_multiset_len(files@);
                    vstd::seq_lib::to_multiset_len(group.files@);
                    assert(rest@ =~= rest_before.drop_first());
                    assert(path_order(by_path, source.files@));
                    assert(by_path.take(by_path.len() as int) =~= by_path);
                }
                if files.len() > remaining {
                    files.truncate(remaining);
                    limit_reached = true;
                }
                let ghost taken = files@.len() as int;
                assert(files@ == by_path.take(taken));
                if files.len() >= 2 {
                    let keep = choose_keep_candidate(&files);
                    let size = files[0].candidate.size_bytes;
                    let count = (files.len() - 1) as u64;
                    let group_reclaimable = match size.checked_mul(count) {
                        Some(product) => product,
                        None => u64::MAX,
                    };
                    let hex = crate::text::hex_bytes(group.hash.as_slice());
                    proof {
                        lemma_hex_len(group.hash@);
                    }
                    let mut members: Vec<DuplicateMember> = Vec::new();
                    let mut m: usize = 0;
                    while m < files.len()
                        invariant
                            0 <= m <= files@.len(),
                            keep < files@.len(),
                            members@.len() == m,
                            forall|j: int| 0 <= j < m ==> #[trigger] members@[j].suggested_keep == (j == keep),
                            forall|j: int| 0 <= j < m ==> member_of(#[trigger] members@[j], files@[j], j == keep),
                        decreases files@.len() - m,
                    {
                        members.push(build_member(&files[m], m == keep));
                        m = m + 1;
                    }
                    let hex_chars = chars_of(hex.as_str());
                    let head = crate::text::string_of(&hex_chars, 0, 16);
                    assert(hex_chars@.subrange(0, 16) =~= hex@.take(16));
                    let mut id = "duplicate-".to_string();
                    vstd::string::StringExecFns::append(&mut id, head.as_str());
                    vstd::string::StringExecFns::append(&mut id, "-");
                    let size_text = crate::cleanup_plan::executor::decimal_text_u64(size);
                    vstd::string::StringExecFns::append(&mut id, size_text.as_str());
                    let mut hash_text = "SHA-256 ".to_string();
                    vstd::string::StringExecFns::append(&mut hash_text, hex.as_str());
                    let ghost member_count = members@.len();
                    let reported = DuplicateGroup {
                        id,
                        hash: hash_text,
                        size_bytes: size,
                        reclaimable_bytes: group_reclaimable,
                        match_kind: DuplicateMatch::FullHash,
                        total_members,
                        members,
                    };
                    proof {
                        assert(reported.members@[keep as int].suggested_keep);
                        assert(input[v].hash@.len() == 32);
                        lemma_saturating_add_step(reclaimable as int, reclaimable_total(groups@), group_reclaimable as int, u64::MAX as int);
                    }
                    returned = returned + files.len();
                    reclaimable = reclaimable.saturating_add(group_reclaimable);
                    let ghost before_groups = groups@;
                    groups.push(reported);
                    proof {
                        assert(first_preferred(files@, keep as int));
                        assert(reports_files(reported, source, by_path.take(taken)));
                        assert(reports_group(reported, source, taken));
                        let tail = duplicate_plan(rest@, groups_left - 1, members_left - taken);
                        assert(done + (seq![(source, taken)] + tail.0) =~= done.push((source, taken)) + tail.0);
                        let before_done = done;
                        done = done.push((source, taken));
                        assert forall|g: int| 0 <= g < groups@.len() implies reports_group(#[trigger] groups@[g], done[g].0, done[g].1) by {
                            if g < before_groups.len() {
                                assert(groups@[g] == before_groups[g]);
                                assert(done[g] == before_done[g]);
                            }
                        }
                        assert(groups@.drop_last() =~= before_groups);
                        assert forall|g: int| 0 <= g < groups@.len() implies well_formed_group(#[trigger] groups@[g], input) by {
                            if g < before_groups.len() {
                                assert(groups@[g] == before_groups[g]);
                            } else {
                                assert(groups@[g] == reported);
                            }
                        }
                    }
                }
            }
        }
    }
    let assembled = AssembledDuplicates { groups, reclaimable_bytes: reclaimable, limit_reached };
    proof {
        if !stop {
            assert(done + seq![] =~= done);
        }
        assert(report_order(order, input));
        assert(assembled_from(assembled, order, max_groups, max_members));
    }
    assembled
}


/// What opening a large file showed: its identity and hard-link count (or
/// `None` when they could not be read), and whether it has only the default
/// data stream (or `None` when that could not be checked).
#[derive(Clone, Copy, Debug)]
pub struct OpenedFileFacts {
    pub identity_and_links: Option<(crate::scanner::FileIdentity, u64)>,
    pub default_stream_only: Option<bool>,
}

/// The sensitivity and note of a large file once what opening it showed is
/// taken into account: a file that is not protected by its path becomes
/// protected when it has several hard links, extra data streams, or no
/// stable identity.
pub open spec fn opened_class(components: Seq<String>, facts: OpenedFileFacts) -> (Sensitivity, Option<Seq<char>>) {
    let (sensitivity, note) = large_file_class(components);
    if sensitivity == Sensitivity::Protected {
        (sensitivity, note)
    } else {
        match (facts.identity_and_links, facts.default_stream_only) {
            (Some((_, links)), Some(true)) => if links == 1 {
                (sensitivity, note)
            } else if links > 1 {
                (Sensitivity::Protected, Some("文件存在多个硬链接，无法准确承诺释放空间"@))
            } else {
                (Sensitivity::Protected, Some("无法建立稳定文件身份，当前结果仅供查看"@))
            },
            (Some(_), Some(false)) => (Sensitivity::Protected, Some("文件包含额外数据流，无法作为普通大文件安全删除"@)),
            _ => (Sensitivity::Protected, Some("无法建立稳定文件身份，当前结果仅供查看"@)),
        }
    }
}

/// The identity that a large file's snapshot pins: present only for a file
/// with one link and only the default stream that its path does not protect.
pub open spec fn pinned_identity(components: Seq<String>, facts: OpenedFileFacts) -> Option<crate::scanner::FileIdentity> {
    if large_file_class(components).0 == Sensitivity::Protected {
        None
    } else {
        match (facts.identity_and_links, facts.default_stream_only) {
            (Some((identity, 1)), Some(true)) => Some(identity),
            _ => None,
        }
    }
}

/// The entry of a large file found by a scan, and the snapshot that allows
/// deleting it later when its identity is pinned.
pub fn found_large_file(
    candidate: &FileCandidate,
    facts: OpenedFileFacts,
    name: String,
    display_path: String,
    canonical_root: &String,
) -> (r: (LargeFileEntry, Option<LargeFileSnapshot>))
    ensures
        r.0.id@ == stable_id_spec("large"@, candidate.path@),
        r.0.name == name,
        r.0.path == display_path,
        r.0.size_bytes == candidate.size_bytes,
        r.0.allocated_bytes == candidate.size_bytes,
        r.0.modified_at@ == time_text(candidate.modified_secs),
        r.0.file_type@ == file_type_spec(extension_lower_spec(file_name_of(candidate.components@))),
        r.0.sensitivity == opened_class(candidate.components@, facts).0,
        match r.0.note {
            Some(note) => opened_class(candidate.components@, facts).1 == Some(note@),
            None => opened_class(candidate.components@, facts).1 is None,
        },
        match pinned_identity(candidate.components@, facts) {
            Some(identity) => r.1 matches Some(snapshot) && snapshot.entry == r.0
                && snapshot.canonical_root == *canonical_root && snapshot.candidate.identity
                == Some(identity) && snapshot.candidate.path == candidate.path
                && snapshot.candidate.size_bytes == candidate.size_bytes
                && snapshot.candidate.modified_secs == candidate.modified_secs
                && snapshot.candidate.modified_unix_nanos == candidate.modified_unix_nanos,
            None => r.1 is None,
        },
{
    let (file_type, class_sensitivity, class_note) = classify_large_file(&candidate.components);
    let mut sensitivity = class_sensitivity;
    let mut note = class_note;
    let mut pinned: Option<crate::scanner::FileIdentity> = None;
    if sensitivity != Sensitivity::Protected {
        match (facts.identity_and_links, facts.default_stream_only) {
            (Some((identity, links)), Some(true)) => {
                if links == 1 {
                    pinned = Some(identity);
                } else if links > 1 {
                    sensitivity = Sensitivity::Protected;
                    note = Some("文件存在多个硬链接，无法准确承诺释放空间".to_string());
                } else {
                    sensitivity = Sensitivity::Protected;
                    note = Some("无法建立稳定文件身份，当前结果仅供查看".to_string());
                }
            },
            (Some(_), Some(false)) => {
                sensitivity = Sensitivity::Protected;
                note = Some("文件包含额外数据流，无法作为普通大文件安全删除".to_string());
            },
            _ => {
                sensitivity = Sensitivity::Protected;
                note = Some("无法建立稳定文件身份，当前结果仅供查看".to_string());
            },
        }
    }
    let entry = LargeFileEntry {
        id: stable_id("large", candidate.path.as_str()),
        name,
        path: display_path,
        size_bytes: candidate.size_bytes,
        allocated_bytes: candidate.size_bytes,
        modified_at: format_system_time(candidate.modified_secs),
        file_type,
        sensitivity,
        note,
    };
    match pinned {
        None => (entry, None),
        Some(identity) => {
            let snapshot = LargeFileSnapshot {
                entry: copy_large_entry(&entry),
                canonical_root: canonical_root.clone(),
                candidate: FileCandidate {
                    path: candidate.path.clone(),
                    size_bytes: candidate.size_bytes,
                    modified_secs: candidate.modified_secs,
                    modified_unix_nanos: candidate.modified_unix_nanos,
                    identity: Some(identity),
                    components: copy_strings(&candidate.components),
                },
            };
            (entry, Some(snapshot))
        },
    }
}

fn copy_strings(v: &Vec<String>) -> (r: Vec<String>)
    ensures
        r@ == v@,
{
    let mut out: Vec<String> = Vec::new();
    let mut i: usize = 0;
    while i < v.len()
        invariant
            0 <= i <= v@.len(),
            out@ == v@.take(i as int),
        decreases v@.len() - i,
    {
        out.push(v[i].clone());
        assert(v@.take(i + 1) == v@.take(i as int).push(v@[i as int]));
        i = i + 1;
    }
    assert(v@.take(v@.len() as int) == v@);
    out
}

fn copy_large_entry(entry: &LargeFileEntry) -> (r: LargeFileEntry)
    ensures
        r == *entry,
{
    LargeFileEntry {
        id: entry.id.clone(),
        name: entry.name.clone(),
        path: entry.path.clone(),
        size_bytes: entry.size_bytes,
        allocated_bytes: entry.allocated_bytes,
        modified_at: entry.modified_at.clone(),
        file_type: entry.file_type.clone(),
        sensitivity: entry.sensitivity,
        note: crate::models::copy_optional_text(&entry.note),
    }
}

} // verus!

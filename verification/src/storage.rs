//! Pure rules of the file store: the size bound, the file type and MIME
//! classification by extension, and file name sanitizing.
//!
//! Reading and writing the files themselves is input/output and happens
//! outside this crate; these functions only decide.

use vstd::prelude::*;
use vstd::string::StrSliceExecFns;

verus! {

/// The largest accepted file, in bytes: fifty binary megabytes.
pub const MAX_FILE_SIZE: i64 = 50 * 1024 * 1024;

/// What `char::is_alphanumeric` of std returns for a character: whether
/// it is alphabetic or numeric under Unicode.
pub uninterp spec fn is_unicode_alphanumeric(c: char) -> bool;

/// Whether a character is an ASCII letter or an ASCII digit.
pub open spec fn spec_ascii_letter_or_digit(c: char) -> bool {
    ||| 'a' <= c <= 'z'
    ||| 'A' <= c <= 'Z'
    ||| '0' <= c <= '9'
}

/// Relies on `char::is_alphanumeric` of std: the answer depends on the
/// character alone, and within the ASCII range exactly the letters and
/// digits are alphabetic or numeric.
pub assume_specification[ char::is_alphanumeric ](c: char) -> (r: bool)
    ensures
        r == is_unicode_alphanumeric(c),
        c < '\u{80}' ==> (r <==> spec_ascii_letter_or_digit(c)),
;

/// Relies on `String::push` of std: appends the character to the end of
/// the string.
pub assume_specification[ String::push ](s: &mut String, c: char)
    ensures
        final(s)@ == old(s)@.push(c),
;

/// ASCII lowercasing of one character; anything but an ASCII capital
/// letter passes unchanged. File extensions are matched against ASCII
/// names, so this is the only case folding classification needs.
pub open spec fn spec_lower_char(c: char) -> char {
    match c {
        'A' => 'a',
        'B' => 'b',
        'C' => 'c',
        'D' => 'd',
        'E' => 'e',
        'F' => 'f',
        'G' => 'g',
        'H' => 'h',
        'I' => 'i',
        'J' => 'j',
        'K' => 'k',
        'L' => 'l',
        'M' => 'm',
        'N' => 'n',
        'O' => 'o',
        'P' => 'p',
        'Q' => 'q',
        'R' => 'r',
        'S' => 's',
        'T' => 't',
        'U' => 'u',
        'V' => 'v',
        'W' => 'w',
        'X' => 'x',
        'Y' => 'y',
        'Z' => 'z',
        _ => c,
    }
}

/// ASCII lowercasing of a character sequence.
pub open spec fn lower_chars(s: Seq<char>) -> Seq<char> {
    s.map_values(|c: char| spec_lower_char(c))
}

/// The position of the last dot of a name, or minus one if it has none.
pub open spec fn last_dot(name: Seq<char>) -> int
    decreases name.len(),
{
    if name.len() == 0 {
        -1
    } else if name.last() == '.' {
        name.len() - 1
    } else {
        last_dot(name.drop_last())
    }
}

/// The name with trailing slashes dropped: a name that came with a
/// trailing separator is classified by the component before it.
pub open spec fn trim_trailing_slashes(s: Seq<char>) -> Seq<char>
    decreases s.len(),
{
    if s.len() > 0 && s.last() == '/' {
        trim_trailing_slashes(s.drop_last())
    } else {
        s
    }
}

/// The position of the last slash of a name, or minus one if it has
/// none.
pub open spec fn last_slash(name: Seq<char>) -> int
    decreases name.len(),
{
    if name.len() == 0 {
        -1
    } else if name.last() == '/' {
        name.len() - 1
    } else {
        last_slash(name.drop_last())
    }
}

/// The trailing component of a name: what follows its last slash, once
/// trailing slashes are dropped. A bare file name is its own trailing
/// component.
pub open spec fn file_name_part(name: Seq<char>) -> Seq<char> {
    let trimmed = trim_trailing_slashes(name);
    trimmed.subrange(last_slash(trimmed) + 1, trimmed.len() as int)
}

/// The extension of a file name: what follows the last dot of its
/// trailing component. A component without a dot has none, and neither
/// has one whose only dot leads it (a hidden file).
pub open spec fn spec_extension_of(name: Seq<char>) -> Option<Seq<char>> {
    let base = file_name_part(name);
    let i = last_dot(base);
    if i <= 0 {
        None
    } else {
        Some(base.subrange(i + 1, base.len() as int))
    }
}

/// The lowercased extension a name is classified by; a name without an
/// extension is classified by the empty sequence.
pub open spec fn spec_lower_extension(name: Seq<char>) -> Seq<char> {
    match spec_extension_of(name) {
        Some(e) => lower_chars(e),
        None => Seq::empty(),
    }
}

fn lower_char(c: char) -> (r: char)
    ensures
        r == spec_lower_char(c),
{
    match c {
        'A' => 'a',
        'B' => 'b',
        'C' => 'c',
        'D' => 'd',
        'E' => 'e',
        'F' => 'f',
        'G' => 'g',
        'H' => 'h',
        'I' => 'i',
        'J' => 'j',
        'K' => 'k',
        'L' => 'l',
        'M' => 'm',
        'N' => 'n',
        'O' => 'o',
        'P' => 'p',
        'Q' => 'q',
        'R' => 'r',
        'S' => 's',
        'T' => 't',
        'U' => 'u',
        'V' => 'v',
        'W' => 'w',
        'X' => 'x',
        'Y' => 'y',
        'Z' => 'z',
        _ => c,
    }
}

/// The characters of a string, one by one.
fn chars_of(s: &str) -> (v: Vec<char>)
    ensures
        v@ == s@,
{
    let n = s.unicode_len();
    let mut v: Vec<char> = Vec::new();
    let mut i: usize = 0;
    while i < n
        invariant
            i <= n,
            n == s@.len(),
            v@.len() == i,
            forall|j: int| 0 <= j < i ==> #[trigger] v@[j] == s@[j],
        decreases n - i,
    {
        v.push(s.get_char(i));
        i = i + 1;
    }
    proof {
        assert(v@ =~= s@);
    }
    v
}

/// Whether a character list spells exactly the given string.
fn chars_equal_str(v: &Vec<char>, lit: &str) -> (r: bool)
    ensures
        r == (v@ == lit@),
{
    let n = lit.unicode_len();
    if v.len() != n {
        return false;
    }
    let mut i: usize = 0;
    while i < n
        invariant
            i <= n,
            n == lit@.len(),
            v@.len() == n,
            forall|j: int| 0 <= j < i ==> #[trigger] v@[j] == lit@[j],
        decreases n - i,
    {
        if v[i] != lit.get_char(i) {
            return false;
        }
        i = i + 1;
    }
    proof {
        assert(v@ =~= lit@);
    }
    true
}

/// The lowercased extension of a file name, empty if it has none.
fn lower_extension(filename: &str) -> (ext: Vec<char>)
    ensures
        ext@ == spec_lower_extension(filename@),
{
    let ghost name = filename@;
    let chars = chars_of(filename);

    let mut end: usize = chars.len();
    proof {
        assert(name.take(name.len() as int) =~= name);
    }
    while end > 0 && chars[end - 1] == '/'
        invariant
            end <= chars@.len(),
            chars@ == name,
            trim_trailing_slashes(name) == trim_trailing_slashes(name.take(end as int)),
        decreases end,
    {
        proof {
            assert(name.take(end as int).last() == name[end - 1]);
            assert(name.take(end as int).drop_last() =~= name.take(end - 1));
        }
        end = end - 1;
    }
    let ghost trimmed = name.take(end as int);
    proof {
        assert(trim_trailing_slashes(name) =~= trimmed);
    }

    let mut start: usize = end;
    proof {
        assert(trimmed.take(end as int) =~= trimmed);
    }
    while start > 0 && chars[start - 1] != '/'
        invariant
            start <= end <= chars@.len(),
            chars@ == name,
            trimmed == name.take(end as int),
            last_slash(trimmed) == last_slash(trimmed.take(start as int)),
        decreases start,
    {
        proof {
            assert(trimmed.take(start as int).last() == name[start - 1]);
            assert(trimmed.take(start as int).drop_last() =~= trimmed.take(start - 1));
        }
        start = start - 1;
    }
    proof {
        if start > 0 {
            assert(trimmed.take(start as int).last() == name[start - 1]);
            assert(last_slash(trimmed) == start - 1);
        } else {
            assert(trimmed.take(0) =~= Seq::<char>::empty());
            assert(last_slash(trimmed) == -1);
        }
    }
    let ghost base = trimmed.subrange(start as int, end as int);
    proof {
        assert(base =~= file_name_part(name));
    }

    let mut j: usize = end;
    proof {
        assert(base.take(end - start) =~= base);
    }
    while j > start && chars[j - 1] != '.'
        invariant
            start <= j <= end <= chars@.len(),
            chars@ == name,
            trimmed == name.take(end as int),
            base == trimmed.subrange(start as int, end as int),
            last_dot(base) == last_dot(base.take(j - start)),
        decreases j,
    {
        proof {
            assert(base.take(j - start).last() == base[j - start - 1]);
            assert(base[j - start - 1] == name[j - 1]);
            assert(base.take(j - start).drop_last() =~= base.take(j - start - 1));
        }
        j = j - 1;
    }
    proof {
        if j > start {
            assert(base.take(j - start).last() == base[j - start - 1]);
            assert(base[j - start - 1] == name[j - 1]);
            assert(last_dot(base) == j - start - 1);
        } else {
            assert(base.take(0) =~= Seq::<char>::empty());
            assert(last_dot(base) == -1);
        }
    }

    let mut ext: Vec<char> = Vec::new();
    if j > start + 1 {
        let mut k: usize = j;
        while k < end
            invariant
                j <= k <= end <= chars@.len(),
                chars@ == name,
                ext@.len() == k - j,
                forall|t: int|
                    0 <= t < ext@.len() ==> #[trigger] ext@[t] == spec_lower_char(name[j + t]),
            decreases end - k,
        {
            ext.push(lower_char(chars[k]));
            k = k + 1;
        }
        proof {
            let e = base.subrange(j - start, base.len() as int);
            assert(ext@ =~= lower_chars(e));
        }
    }
    proof {
        if j <= start + 1 {
            assert(spec_lower_extension(name) =~= Seq::<char>::empty());
        }
    }
    ext
}

/// The file type category of a lowercased extension. The names are the
/// categories callers group files by; an unknown extension is `other`.
pub open spec fn spec_detect_file_type(name: Seq<char>) -> Seq<char> {
    let e = spec_lower_extension(name);
    if e == "jpg"@ || e == "jpeg"@ || e == "png"@ || e == "gif"@ || e == "bmp"@ || e == "svg"@
        || e == "webp"@ || e == "ico"@ {
        "image"@
    } else if e == "mp4"@ || e == "avi"@ || e == "mkv"@ || e == "mov"@ || e == "wmv"@
        || e == "flv"@ || e == "webm"@ {
        "video"@
    } else if e == "mp3"@ || e == "wav"@ || e == "ogg"@ || e == "flac"@ || e == "aac"@
        || e == "m4a"@ {
        "audio"@
    } else if e == "pdf"@ || e == "doc"@ || e == "docx"@ || e == "xls"@ || e == "xlsx"@
        || e == "ppt"@ || e == "pptx"@ || e == "odt"@ || e == "ods"@ || e == "odp"@ {
        "document"@
    } else if e == "txt"@ || e == "md"@ || e == "csv"@ || e == "json"@ || e == "xml"@
        || e == "yaml"@ || e == "yml"@ || e == "toml"@ || e == "ini"@ || e == "conf"@
        || e == "log"@ {
        "text"@
    } else if e == "js"@ || e == "ts"@ || e == "jsx"@ || e == "tsx"@ || e == "py"@ || e == "rs"@
        || e == "go"@ || e == "java"@ || e == "c"@ || e == "cpp"@ || e == "h"@ || e == "hpp"@
        || e == "cs"@ || e == "php"@ || e == "rb"@ || e == "swift"@ || e == "kt"@ {
        "code"@
    } else if e == "html"@ || e == "css"@ || e == "scss"@ || e == "sass"@ || e == "less"@ {
        "code"@
    } else if e == "sh"@ || e == "bash"@ || e == "zsh"@ || e == "fish"@ || e == "ps1"@ {
        "code"@
    } else if e == "zip"@ || e == "rar"@ || e == "7z"@ || e == "tar"@ || e == "gz"@
        || e == "bz2"@ {
        "archive"@
    } else if e == "exe"@ || e == "msi"@ || e == "app"@ || e == "dmg"@ || e == "deb"@
        || e == "rpm"@ {
        "executable"@
    } else if e == "bat"@ || e == "cmd"@ {
        "script"@
    } else {
        "other"@
    }
}

/// The MIME type of a lowercased extension, where one is known.
pub open spec fn spec_mime_type(name: Seq<char>) -> Option<Seq<char>> {
    let e = spec_lower_extension(name);
    if e == "jpg"@ || e == "jpeg"@ {
        Some("image/jpeg"@)
    } else if e == "png"@ {
        Some("image/png"@)
    } else if e == "gif"@ {
        Some("image/gif"@)
    } else if e == "svg"@ {
        Some("image/svg+xml"@)
    } else if e == "webp"@ {
        Some("image/webp"@)
    } else if e == "bmp"@ {
        Some("image/bmp"@)
    } else if e == "ico"@ {
        Some("image/x-icon"@)
    } else if e == "mp4"@ {
        Some("video/mp4"@)
    } else if e == "webm"@ {
        Some("video/webm"@)
    } else if e == "mov"@ {
        Some("video/quicktime"@)
    } else if e == "avi"@ {
        Some("video/x-msvideo"@)
    } else if e == "mkv"@ {
        Some("video/x-matroska"@)
    } else if e == "mp3"@ {
        Some("audio/mpeg"@)
    } else if e == "wav"@ {
        Some("audio/wav"@)
    } else if e == "ogg"@ {
        Some("audio/ogg"@)
    } else if e == "flac"@ {
        Some("audio/flac"@)
    } else if e == "aac"@ {
        Some("audio/aac"@)
    } else if e == "m4a"@ {
        Some("audio/mp4"@)
    } else if e == "weba"@ {
        Some("audio/webm"@)
    } else if e == "pdf"@ {
        Some("application/pdf"@)
    } else if e == "doc"@ {
        Some("application/msword"@)
    } else if e == "docx"@ {
        Some("application/vnd.openxmlformats-officedocument.wordprocessingml.document"@)
    } else if e == "xls"@ {
        Some("application/vnd.ms-excel"@)
    } else if e == "xlsx"@ {
        Some("application/vnd.openxmlformats-officedocument.spreadsheetml.sheet"@)
    } else if e == "ppt"@ {
        Some("application/vnd.ms-powerpoint"@)
    } else if e == "pptx"@ {
        Some("application/vnd.openxmlformats-officedocument.presentationml.presentation"@)
    } else if e == "txt"@ {
        Some("text/plain"@)
    } else if e == "html"@ {
        Some("text/html"@)
    } else if e == "css"@ {
        Some("text/css"@)
    } else if e == "js"@ {
        Some("application/javascript"@)
    } else if e == "json"@ {
        Some("application/json"@)
    } else if e == "xml"@ {
        Some("application/xml"@)
    } else if e == "md"@ {
        Some("text/markdown"@)
    } else if e == "csv"@ {
        Some("text/csv"@)
    } else if e == "zip"@ {
        Some("application/zip"@)
    } else if e == "rar"@ {
        Some("application/vnd.rar"@)
    } else if e == "7z"@ {
        Some("application/x-7z-compressed"@)
    } else if e == "tar"@ {
        Some("application/x-tar"@)
    } else if e == "gz"@ {
        Some("application/gzip"@)
    } else {
        None
    }
}

/// A name with the separator characters dropped: no null, no backslash,
/// no slash survives.
pub open spec fn strip_separators(s: Seq<char>) -> Seq<char>
    decreases s.len(),
{
    if s.len() == 0 {
        Seq::empty()
    } else if s.last() == '\0' || s.last() == '\\' || s.last() == '/' {
        strip_separators(s.drop_last())
    } else {
        strip_separators(s.drop_last()).push(s.last())
    }
}

/// A name with every non-overlapping pair of consecutive dots removed,
/// scanning from the left.
pub open spec fn remove_dotdot(s: Seq<char>) -> Seq<char>
    decreases s.len(),
{
    if s.len() < 2 {
        s
    } else if s[0] == '.' && s[1] == '.' {
        remove_dotdot(s.skip(2))
    } else {
        seq![s[0]] + remove_dotdot(s.skip(1))
    }
}

/// Whether a character survives sanitizing unchanged: alphanumeric under
/// Unicode, or one of space, dot, hyphen, underscore and parentheses.
pub open spec fn spec_safe_char(c: char) -> bool {
    ||| is_unicode_alphanumeric(c)
    ||| c == ' '
    ||| c == '.'
    ||| c == '-'
    ||| c == '_'
    ||| c == '('
    ||| c == ')'
}

/// A name with every unsafe character masked by an underscore.
pub open spec fn mask_unsafe(s: Seq<char>) -> Seq<char> {
    s.map_values(|c: char| if spec_safe_char(c) { c } else { '_' })
}

/// The sanitized form of a file name: separators dropped, consecutive
/// dot pairs removed, unsafe characters masked.
pub open spec fn spec_sanitize_filename(s: Seq<char>) -> Seq<char> {
    mask_unsafe(remove_dotdot(strip_separators(s)))
}

/// The local file store. The directory the files live in is decided by
/// the surrounding application; everything else about a file is decided
/// here.
pub struct FileStorageManager {
    storage_dir: String,
}

impl FileStorageManager {
    /// The directory the manager stores files under.
    pub closed spec fn dir(&self) -> Seq<char> {
        self.storage_dir@
    }

    /// A manager over the given storage directory.
    pub fn new(storage_dir: String) -> (m: FileStorageManager)
        ensures
            m.dir() == storage_dir@,
    {
        FileStorageManager { storage_dir }
    }

    /// The storage directory path.
    pub fn get_storage_dir(&self) -> (r: &str)
        ensures
            r@ == self.dir(),
    {
        self.storage_dir.as_str()
    }

    /// Accepts exactly the sizes up to [`MAX_FILE_SIZE`] bytes.
    pub fn validate_size(file_size: i64) -> (r: Result<(), String>)
        ensures
            r is Ok <==> file_size <= MAX_FILE_SIZE,
            r matches Err(m) ==> m@ == "File size exceeds maximum limit of 50MB"@,
    {
        if file_size > MAX_FILE_SIZE {
            Err("File size exceeds maximum limit of 50MB".to_owned())
        } else {
            Ok(())
        }
    }

    /// Classifies a file name into a type category by its extension.
    pub fn detect_file_type(filename: &str) -> (r: String)
        ensures
            r@ == spec_detect_file_type(filename@),
    {
        let e = lower_extension(filename);
        if chars_equal_str(&e, "jpg") || chars_equal_str(&e, "jpeg") || chars_equal_str(&e, "png")
            || chars_equal_str(&e, "gif") || chars_equal_str(&e, "bmp")
            || chars_equal_str(&e, "svg") || chars_equal_str(&e, "webp")
            || chars_equal_str(&e, "ico") {
            "image".to_owned()
        } else if chars_equal_str(&e, "mp4") || chars_equal_str(&e, "avi")
            || chars_equal_str(&e, "mkv") || chars_equal_str(&e, "mov")
            || chars_equal_str(&e, "wmv") || chars_equal_str(&e, "flv")
            || chars_equal_str(&e, "webm") {
            "video".to_owned()
        } else if chars_equal_str(&e, "mp3") || chars_equal_str(&e, "wav")
            || chars_equal_str(&e, "ogg") || chars_equal_str(&e, "flac")
            || chars_equal_str(&e, "aac") || chars_equal_str(&e, "m4a") {
            "audio".to_owned()
        } else if chars_equal_str(&e, "pdf") || chars_equal_str(&e, "doc")
            || chars_equal_str(&e, "docx") || chars_equal_str(&e, "xls")
            || chars_equal_str(&e, "xlsx") || chars_equal_str(&e, "ppt")
            || chars_equal_str(&e, "pptx") || chars_equal_str(&e, "odt")
            || chars_equal_str(&e, "ods") || chars_equal_str(&e, "odp") {
            "document".to_owned()
        } else if chars_equal_str(&e, "txt") || chars_equal_str(&e, "md")
            || chars_equal_str(&e, "csv") || chars_equal_str(&e, "json")
            || chars_equal_str(&e, "xml") || chars_equal_str(&e, "yaml")
            || chars_equal_str(&e, "yml") || chars_equal_str(&e, "toml")
            || chars_equal_str(&e, "ini") || chars_equal_str(&e, "conf")
            || chars_equal_str(&e, "log") {
            "text".to_owned()
        } else if chars_equal_str(&e, "js") || chars_equal_str(&e, "ts")
            || chars_equal_str(&e, "jsx") || chars_equal_str(&e, "tsx")
            || chars_equal_str(&e, "py") || chars_equal_str(&e, "rs") || chars_equal_str(&e, "go")
            || chars_equal_str(&e, "java") || chars_equal_str(&e, "c")
            || chars_equal_str(&e, "cpp") || chars_equal_str(&e, "h")
            || chars_equal_str(&e, "hpp") || chars_equal_str(&e, "cs")
            || chars_equal_str(&e, "php") || chars_equal_str(&e, "rb")
            || chars_equal_str(&e, "swift") || chars_equal_str(&e, "kt") {
            "code".to_owned()
        } else if chars_equal_str(&e, "html") || chars_equal_str(&e, "css")
            || chars_equal_str(&e, "scss") || chars_equal_str(&e, "sass")
            || chars_equal_str(&e, "less") {
            "code".to_owned()
        } else if chars_equal_str(&e, "sh") || chars_equal_str(&e, "bash")
            || chars_equal_str(&e, "zsh") || chars_equal_str(&e, "fish")
            || chars_equal_str(&e, "ps1") {
            "code".to_owned()
        } else if chars_equal_str(&e, "zip") || chars_equal_str(&e, "rar")
            || chars_equal_str(&e, "7z") || chars_equal_str(&e, "tar")
            || chars_equal_str(&e, "gz") || chars_equal_str(&e, "bz2") {
            "archive".to_owned()
        } else if chars_equal_str(&e, "exe") || chars_equal_str(&e, "msi")
            || chars_equal_str(&e, "app") || chars_equal_str(&e, "dmg")
            || chars_equal_str(&e, "deb") || chars_equal_str(&e, "rpm") {
            "executable".to_owned()
        } else if chars_equal_str(&e, "bat") || chars_equal_str(&e, "cmd") {
            "script".to_owned()
        } else {
            "other".to_owned()
        }
    }

    /// The MIME type of a file name, where its extension names one.
    pub fn get_mime_type(filename: &str) -> (r: Option<String>)
        ensures
            r is Some <==> spec_mime_type(filename@) is Some,
            r matches Some(m) ==> spec_mime_type(filename@) == Some(m@),
    {
        let e = lower_extension(filename);
        if chars_equal_str(&e, "jpg") || chars_equal_str(&e, "jpeg") {
            Some("image/jpeg".to_owned())
        } else if chars_equal_str(&e, "png") {
            Some("image/png".to_owned())
        } else if chars_equal_str(&e, "gif") {
            Some("image/gif".to_owned())
        } else if chars_equal_str(&e, "svg") {
            Some("image/svg+xml".to_owned())
        } else if chars_equal_str(&e, "webp") {
            Some("image/webp".to_owned())
        } else if chars_equal_str(&e, "bmp") {
            Some("image/bmp".to_owned())
        } else if chars_equal_str(&e, "ico") {
            Some("image/x-icon".to_owned())
        } else if chars_equal_str(&e, "mp4") {
            Some("video/mp4".to_owned())
        } else if chars_equal_str(&e, "webm") {
            Some("video/webm".to_owned())
        } else if chars_equal_str(&e, "mov") {
            Some("video/quicktime".to_owned())
        } else if chars_equal_str(&e, "avi") {
            Some("video/x-msvideo".to_owned())
        } else if chars_equal_str(&e, "mkv") {
            Some("video/x-matroska".to_owned())
        } else if chars_equal_str(&e, "mp3") {
            Some("audio/mpeg".to_owned())
        } else if chars_equal_str(&e, "wav") {
            Some("audio/wav".to_owned())
        } else if chars_equal_str(&e, "ogg") {
            Some("audio/ogg".to_owned())
        } else if chars_equal_str(&e, "flac") {
            Some("audio/flac".to_owned())
        } else if chars_equal_str(&e, "aac") {
            Some("audio/aac".to_owned())
        } else if chars_equal_str(&e, "m4a") {
            Some("audio/mp4".to_owned())
        } else if chars_equal_str(&e, "weba") {
            Some("audio/webm".to_owned())
        } else if chars_equal_str(&e, "pdf") {
            Some("application/pdf".to_owned())
        } else if chars_equal_str(&e, "doc") {
            Some("application/msword".to_owned())
        } else if chars_equal_str(&e, "docx") {
            Some("application/vnd.openxmlformats-officedocument.wordprocessingml.document".to_owned())
        } else if chars_equal_str(&e, "xls") {
            Some("application/vnd.ms-excel".to_owned())
        } else if chars_equal_str(&e, "xlsx") {
            Some("application/vnd.openxmlformats-officedocument.spreadsheetml.sheet".to_owned())
        } else if chars_equal_str(&e, "ppt") {
            Some("application/vnd.ms-powerpoint".to_owned())
        } else if chars_equal_str(&e, "pptx") {
            Some(
                "application/vnd.openxmlformats-officedocument.presentationml.presentation".to_owned(),
            )
        } else if chars_equal_str(&e, "txt") {
            Some("text/plain".to_owned())
        } else if chars_equal_str(&e, "html") {
            Some("text/html".to_owned())
        } else if chars_equal_str(&e, "css") {
            Some("text/css".to_owned())
        } else if chars_equal_str(&e, "js") {
            Some("application/javascript".to_owned())
        } else if chars_equal_str(&e, "json") {
            Some("application/json".to_owned())
        } else if chars_equal_str(&e, "xml") {
            Some("application/xml".to_owned())
        } else if chars_equal_str(&e, "md") {
            Some("text/markdown".to_owned())
        } else if chars_equal_str(&e, "csv") {
            Some("text/csv".to_owned())
        } else if chars_equal_str(&e, "zip") {
            Some("application/zip".to_owned())
        } else if chars_equal_str(&e, "rar") {
            Some("application/vnd.rar".to_owned())
        } else if chars_equal_str(&e, "7z") {
            Some("application/x-7z-compressed".to_owned())
        } else if chars_equal_str(&e, "tar") {
            Some("application/x-tar".to_owned())
        } else if chars_equal_str(&e, "gz") {
            Some("application/gzip".to_owned())
        } else {
            None
        }
    }

    /// Sanitizes a file name against path traversal: drops separators,
    /// removes consecutive dot pairs and masks unsafe characters.
    pub fn sanitize_filename(filename: &str) -> (r: String)
        ensures
            r@ == spec_sanitize_filename(filename@),
    {
        let ghost name = filename@;
        let chars = chars_of(filename);

        let mut stripped: Vec<char> = Vec::new();
        let mut i: usize = 0;
        while i < chars.len()
            invariant
                i <= chars@.len(),
                chars@ == name,
                stripped@ == strip_separators(name.take(i as int)),
            decreases chars@.len() - i,
        {
            let c = chars[i];
            proof {
                assert(name.take(i + 1).drop_last() =~= name.take(i as int));
                assert(name.take(i + 1).last() == name[i as int]);
            }
            if !(c == '\0' || c == '\\' || c == '/') {
                stripped.push(c);
            }
            i = i + 1;
        }
        proof {
            assert(name.take(name.len() as int) =~= name);
        }

        let ghost s1 = stripped@;
        let mut dotless: Vec<char> = Vec::new();
        let mut k: usize = 0;
        proof {
            assert(s1.skip(0) =~= s1);
            assert(Seq::<char>::empty() + remove_dotdot(s1) =~= remove_dotdot(s1));
        }
        while k < stripped.len()
            invariant
                k <= stripped@.len(),
                stripped@ == s1,
                remove_dotdot(s1) == dotless@ + remove_dotdot(s1.skip(k as int)),
            decreases stripped@.len() - k,
        {
            if k + 1 < stripped.len() && stripped[k] == '.' && stripped[k + 1] == '.' {
                proof {
                    assert(s1.skip(k as int)[0] == '.');
                    assert(s1.skip(k as int)[1] == '.');
                    assert(s1.skip(k as int).skip(2) =~= s1.skip(k + 2));
                }
                k = k + 2;
            } else {
                proof {
                    let rest = s1.skip(k as int);
                    if rest.len() >= 2 {
                        assert(rest.skip(1) =~= s1.skip(k + 1));
                        assert(remove_dotdot(rest) == seq![rest[0]] + remove_dotdot(
                            rest.skip(1),
                        ));
                    } else {
                        assert(rest.len() == 1);
                        assert(s1.skip(k + 1) =~= Seq::<char>::empty());
                        assert(remove_dotdot(rest) =~= seq![rest[0]] + remove_dotdot(
                            s1.skip(k + 1),
                        ));
                    }
                    assert(dotless@.push(s1[k as int]) + remove_dotdot(s1.skip(k + 1)) =~= dotless@
                        + remove_dotdot(s1.skip(k as int)));
                }
                dotless.push(stripped[k]);
                k = k + 1;
            }
        }
        proof {
            assert(s1.skip(s1.len() as int) =~= Seq::<char>::empty());
            assert(dotless@ + remove_dotdot(Seq::<char>::empty()) =~= dotless@);
        }

        let ghost s2 = dotless@;
        let mut out = String::new();
        let mut t: usize = 0;
        while t < dotless.len()
            invariant
                t <= dotless@.len(),
                dotless@ == s2,
                out@.len() == t,
                forall|u: int|
                    0 <= u < t ==> #[trigger] out@[u] == (if spec_safe_char(s2[u]) {
                        s2[u]
                    } else {
                        '_'
                    }),
            decreases dotless@.len() - t,
        {
            let c = dotless[t];
            if c.is_alphanumeric() || c == ' ' || c == '.' || c == '-' || c == '_' || c == '('
                || c == ')' {
                out.push(c);
            } else {
                out.push('_');
            }
            t = t + 1;
        }
        proof {
            assert(out@ =~= mask_unsafe(s2));
        }
        out
    }
}

} // verus!

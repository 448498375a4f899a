//! The digest of a repository's tracked files that is handed to the model,
//! and the cache that serves it while it is fresh.
//!
//! Listing the repository and reading its files is the caller's work. What
//! was read of each tracked file arrives here as a [`TrackedFile`]; which
//! files enter the digest, and in what form, is decided here.

use crate::text::{
    ascii_lowercase, join_lines, joined, same_text, take_chars, to_ascii_lowercase, truncated,
};
use vstd::prelude::*;

verus! {

/// A file larger than this many bytes is left out of the context.
pub const MAX_FILE_SIZE: u64 = 1_000_000;

/// How many characters of a file the context shows.
pub const PREVIEW_CHARS: usize = 1000;

/// For how long after a build, in milliseconds, the cached context is served.
pub const FRESHNESS_WINDOW_MS: u64 = 60_000;

pub open spec fn png_magic() -> Seq<u8> {
    seq![0x89u8, 0x50u8, 0x4eu8, 0x47u8, 0x0du8, 0x0au8, 0x1au8, 0x0au8]
}

pub open spec fn jpeg_magic() -> Seq<u8> {
    seq![0xffu8, 0xd8u8, 0xffu8]
}

pub open spec fn gif87_magic() -> Seq<u8> {
    seq![0x47u8, 0x49u8, 0x46u8, 0x38u8, 0x37u8, 0x61u8]
}

pub open spec fn gif89_magic() -> Seq<u8> {
    seq![0x47u8, 0x49u8, 0x46u8, 0x38u8, 0x39u8, 0x61u8]
}

pub open spec fn zip_magic() -> Seq<u8> {
    seq![0x50u8, 0x4bu8, 0x03u8, 0x04u8]
}

/// Whether the bytes begin like a PNG, JPEG, GIF or ZIP file.
pub open spec fn has_magic_number(head: Seq<u8>) -> bool {
    ||| png_magic().is_prefix_of(head)
    ||| jpeg_magic().is_prefix_of(head)
    ||| gif87_magic().is_prefix_of(head)
    ||| gif89_magic().is_prefix_of(head)
    ||| zip_magic().is_prefix_of(head)
}

/// Where the last `c` of `text` stands, if `c` occurs in it.
pub open spec fn last_position(text: Seq<char>, c: char) -> Option<int>
    decreases text.len(),
{
    if text.len() == 0 {
        None
    } else if text.last() == c {
        Some(text.len() - 1)
    } else {
        last_position(text.drop_last(), c)
    }
}

/// The last segment of a path whose segments are parted by `/`, as the
/// repository lists its files. Nothing is taken off the path first: one that
/// ends in `/` has an empty file name, and `.` and `..` are segments like
/// any other.
pub open spec fn file_name(path: Seq<char>) -> Seq<char> {
    match last_position(path, '/') {
        Some(i) => path.skip(i + 1),
        None => path,
    }
}

/// What follows the last dot of the file name. A name without a dot has no
/// extension, nor has one whose only dot is its first character. So a path
/// that ends in `/`, such as `a.png/`, has none; a listing of files holds no
/// such path.
pub open spec fn extension(path: Seq<char>) -> Option<Seq<char>> {
    let name = file_name(path);
    match last_position(name, '.') {
        Some(i) => if i > 0 {
            Some(name.skip(i + 1))
        } else {
            None
        },
        None => None,
    }
}

/// The extensions, in lower case, that mark a file as binary.
pub open spec fn is_binary_extension(ext: Seq<char>) -> bool {
    ||| ext == "png"@
    ||| ext == "jpg"@
    ||| ext == "jpeg"@
    ||| ext == "gif"@
    ||| ext == "pdf"@
    ||| ext == "zip"@
    ||| ext == "exe"@
    ||| ext == "dll"@
    ||| ext == "so"@
    ||| ext == "dylib"@
    ||| ext == "class"@
    ||| ext == "pyc"@
    ||| ext == "o"@
}

/// Whether the extension of the path, whatever the case of its letters,
/// marks a file as binary.
pub open spec fn has_binary_name(path: Seq<char>) -> bool {
    match extension(path) {
        Some(ext) => is_binary_extension(ascii_lowercase(ext)),
        None => false,
    }
}

/// Whether a file counts as binary, given its path and its first bytes, or
/// `None` for a file that could not be opened or read.
///
/// A file that was read counts as binary by its first bytes, or else by its
/// extension. A file that could not be read does not count as binary,
/// whatever its name: reading its content is then what fails. A binary file
/// that shows neither sign is taken for text.
pub open spec fn is_binary(path: Seq<char>, head: Option<Seq<u8>>) -> bool {
    match head {
        Some(bytes) => has_magic_number(bytes) || has_binary_name(path),
        None => false,
    }
}

/// The bytes behind an optional slice.
pub open spec fn bytes_of(head: Option<&[u8]>) -> Option<Seq<u8>> {
    match head {
        Some(bytes) => Some(bytes@),
        None => None,
    }
}

/// What was read of one tracked file.
#[derive(Clone, Debug, PartialEq, Eq)]
pub struct TrackedFile {
    /// The path as the repository lists it.
    pub path: String,
    /// The file's first bytes; eight are enough. `None` when the file could
    /// not be opened or read; an empty file that was read has no bytes.
    pub head: Option<Vec<u8>>,
    /// The file's size in bytes, when it could be had.
    pub size: Option<u64>,
    /// The file's content, when it was read and is text.
    pub text: Option<String>,
}

pub ghost struct TrackedFileView {
    pub path: Seq<char>,
    pub head: Option<Seq<u8>>,
    pub size: Option<u64>,
    pub text: Option<Seq<char>>,
}

impl View for TrackedFile {
    type V = TrackedFileView;

    open spec fn view(&self) -> TrackedFileView {
        TrackedFileView {
            path: self.path@,
            head: match self.head {
                Some(bytes) => Some(bytes@),
                None => None,
            },
            size: self.size,
            text: self.text.deep_view(),
        }
    }
}

impl DeepView for TrackedFile {
    type V = TrackedFileView;

    open spec fn deep_view(&self) -> TrackedFileView {
        self@
    }
}

impl TrackedFileView {
    /// Whether the file's content is worth reading: it is not binary and its
    /// size is known and within the limit.
    pub open spec fn is_readable(self) -> bool {
        &&& !is_binary(self.path, self.head)
        &&& self.size matches Some(n) && n <= MAX_FILE_SIZE
    }

    /// Whether the file enters the context: it is readable and was read.
    pub open spec fn is_included(self) -> bool {
        self.is_readable() && self.text is Some
    }
}

/// The block that shows one file in the context.
pub open spec fn preview_block(path: Seq<char>, text: Seq<char>) -> Seq<char> {
    "File: "@ + path + "\nPreview:\n"@ + truncated(text, PREVIEW_CHARS as nat) + "\n---"@
}

pub open spec fn paths(files: Seq<TrackedFileView>) -> Seq<Seq<char>> {
    files.map_values(|file: TrackedFileView| file.path)
}

/// The listing without the entries whose path an earlier entry has.
pub open spec fn first_occurrences(files: Seq<TrackedFileView>) -> Seq<TrackedFileView>
    decreases files.len(),
{
    if files.len() == 0 {
        Seq::empty()
    } else {
        let earlier = first_occurrences(files.drop_last());
        if paths(earlier).contains(files.last().path) {
            earlier
        } else {
            earlier.push(files.last())
        }
    }
}

/// The blocks of the included files, in the order of the files.
pub open spec fn blocks(files: Seq<TrackedFileView>) -> Seq<Seq<char>>
    decreases files.len(),
{
    if files.len() == 0 {
        Seq::empty()
    } else {
        let earlier = blocks(files.drop_last());
        let file = files.last();
        if file.is_included() {
            earlier.push(preview_block(file.path, file.text->0))
        } else {
            earlier
        }
    }
}

/// The blocks that a listing gives: one for each included file, a path
/// counted where it first occurs.
pub open spec fn context_blocks(files: Seq<TrackedFileView>) -> Seq<Seq<char>> {
    blocks(first_occurrences(files))
}

/// The context that a listing gives: its blocks with a line feed between
/// neighbours.
pub open spec fn context_of(files: Seq<TrackedFileView>) -> Seq<char> {
    joined(context_blocks(files), seq!['\n'])
}

/// Why a file's content could not be handed out.
#[derive(Clone, Debug, PartialEq, Eq)]
pub enum ContextError {
    /// The file at this path is tracked and not binary, but could not be read.
    ReadFailed(String),
}

impl ContextError {
    pub open spec fn description(self) -> Seq<char> {
        match self {
            ContextError::ReadFailed(path) => "Failed to read file content: "@ + path@,
        }
    }

    /// The error in words.
    pub fn message(&self) -> (r: String)
        ensures
            r@ == self.description(),
    {
        match self {
            ContextError::ReadFailed(path) => {
                let mut out = String::from_str("Failed to read file content: ");
                out.append(path.as_str());
                out
            },
        }
    }
}

/// The tracked paths, the cached context and the time of its build.
pub struct RepoContext {
    tracked_files: Vec<String>,
    context_cache: Option<String>,
    last_update: u64,
}

pub ghost struct RepoContextView {
    /// The tracked paths in the order of the listing, each once.
    pub listed: Seq<Seq<char>>,
    pub cache: Option<Seq<char>>,
    /// When the cache was built, in milliseconds on the caller's clock.
    pub last_update: u64,
}

impl RepoContextView {
    /// Whether the cached context may be served at `now`: there is one, and
    /// less than the freshness window has passed since its build. A clock
    /// that reads earlier than the build counts as no time passed.
    pub open spec fn is_fresh(self, now: u64) -> bool {
        self.cache is Some && now - self.last_update < FRESHNESS_WINDOW_MS
    }

    /// The cache after a build at `now` from `files`. Nothing of the earlier
    /// state is kept.
    pub open spec fn rebuilt(now: u64, files: Seq<TrackedFileView>) -> RepoContextView {
        RepoContextView {
            listed: paths(first_occurrences(files)),
            cache: Some(context_of(files)),
            last_update: now,
        }
    }

    /// The cache after a request at `now`: unchanged while fresh, built anew
    /// from `files` otherwise.
    pub open spec fn updated(self, now: u64, files: Seq<TrackedFileView>) -> RepoContextView {
        if self.is_fresh(now) {
            self
        } else {
            Self::rebuilt(now, files)
        }
    }
}

impl View for RepoContext {
    type V = RepoContextView;

    closed spec fn view(&self) -> RepoContextView {
        RepoContextView {
            listed: self.tracked_files.deep_view(),
            cache: self.context_cache.deep_view(),
            last_update: self.last_update,
        }
    }
}

pub proof fn lemma_paths_of_first_occurrences(files: Seq<TrackedFileView>)
    ensures
        paths(first_occurrences(files)).no_duplicates(),
        forall|p: Seq<char>| paths(first_occurrences(files)).contains(p) <==> paths(files).contains(p),
    decreases files.len(),
{
    if files.len() > 0 {
        let shorter = files.drop_last();
        let earlier = first_occurrences(shorter);
        let last = files.last();
        lemma_paths_of_first_occurrences(shorter);
        assert forall|p: Seq<char>| paths(first_occurrences(files)).contains(p) <==> paths(
            files,
        ).contains(p) by {
            if paths(files).contains(p) {
                let i = choose|i: int| 0 <= i < paths(files).len() && paths(files)[i] == p;
                if i < files.len() - 1 {
                    assert(paths(shorter)[i] == p);
                    assert(paths(shorter).contains(p));
                    assert(paths(earlier).contains(p));
                    let j = choose|j: int| 0 <= j < paths(earlier).len() && paths(earlier)[j] == p;
                    assert(paths(first_occurrences(files))[j] == p);
                } else {
                    if paths(earlier).contains(last.path) {
                    } else {
                        assert(paths(first_occurrences(files))[earlier.len() as int] == p);
                    }
                }
            }
            if paths(first_occurrences(files)).contains(p) {
                let j = choose|j: int|
                    0 <= j < paths(first_occurrences(files)).len() && paths(
                        first_occurrences(files),
                    )[j] == p;
                if j < earlier.len() {
                    assert(paths(earlier)[j] == p);
                    assert(paths(earlier).contains(p));
                    assert(paths(shorter).contains(p));
                    let i = choose|i: int| 0 <= i < paths(shorter).len() && paths(shorter)[i] == p;
                    assert(paths(files)[i] == p);
                } else {
                    assert(paths(files)[files.len() - 1] == p);
                }
            }
        }
        if !paths(earlier).contains(last.path) {
            assert(paths(earlier.push(last)) =~= paths(earlier).push(last.path));
        }
    }
}

/// Whether `bytes` begins with `prefix`.
pub fn bytes_start_with(bytes: &[u8], prefix: &[u8]) -> (r: bool)
    ensures
        r == prefix@.is_prefix_of(bytes@),
{
    if prefix.len() > bytes.len() {
        return false;
    }
    let mut i: usize = 0;
    while i < prefix.len()
        invariant
            i <= prefix.len() <= bytes.len(),
            forall|j: int| 0 <= j < i ==> prefix@[j] == bytes@[j],
        decreases prefix.len() - i,
    {
        if prefix[i] != bytes[i] {
            return false;
        }
        i = i + 1;
    }
    proof {
        assert(prefix@ =~= bytes@.subrange(0, prefix@.len() as int));
    }
    true
}

/// Whether the bytes begin with one of the known magic numbers.
pub fn starts_with_magic_number(head: &[u8]) -> (r: bool)
    ensures
        r == has_magic_number(head@),
{
    let png: [u8; 8] = [0x89, 0x50, 0x4e, 0x47, 0x0d, 0x0a, 0x1a, 0x0a];
    let jpeg: [u8; 3] = [0xff, 0xd8, 0xff];
    let gif87: [u8; 6] = [0x47, 0x49, 0x46, 0x38, 0x37, 0x61];
    let gif89: [u8; 6] = [0x47, 0x49, 0x46, 0x38, 0x39, 0x61];
    let zip: [u8; 4] = [0x50, 0x4b, 0x03, 0x04];
    proof {
        assert(png@ =~= png_magic());
        assert(jpeg@ =~= jpeg_magic());
        assert(gif87@ =~= gif87_magic());
        assert(gif89@ =~= gif89_magic());
        assert(zip@ =~= zip_magic());
    }
    bytes_start_with(head, &png) || bytes_start_with(head, &jpeg) || bytes_start_with(head, &gif87)
        || bytes_start_with(head, &gif89) || bytes_start_with(head, &zip)
}

/// Finds the last `c` of `text`, counting characters from zero.
pub fn find_last(text: &str, c: char) -> (r: Option<usize>)
    ensures
        match r {
            Some(i) => last_position(text@, c) == Some(i as int) && i < text@.len(),
            None => last_position(text@, c) is None,
        },
{
    let ghost whole = text@;
    let total = text.unicode_len();
    let mut found: Option<usize> = None;
    let mut i: usize = 0;
    for ch in it: text.chars()
        invariant
            it.seq() == whole,
            whole.len() == total,
            i == it.index(),
            match found {
                Some(k) => last_position(whole.take(i as int), c) == Some(k as int) && k < i,
                None => last_position(whole.take(i as int), c) is None,
            },
    {
        proof {
            assert(whole.take(i + 1).drop_last() =~= whole.take(i as int));
            assert(whole.take(i + 1).last() == ch);
        }
        if ch == c {
            found = Some(i);
        }
        i = i + 1;
    }
    proof {
        assert(whole.take(whole.len() as int) =~= whole);
    }
    found
}

/// The extension of the path's file name, if it has one. The path is taken
/// as it is, with `/` between its segments; see [`extension`].
pub fn extension_of(path: &str) -> (r: Option<String>)
    ensures
        r.deep_view() == extension(path@),
{
    let total = path.unicode_len();
    let name: &str = match find_last(path, '/') {
        Some(i) => {
            proof {
                assert(path@.skip(i + 1) =~= path@.subrange(i + 1, total as int));
            }
            path.substring_char(i + 1, total)
        },
        None => path,
    };
    let length = name.unicode_len();
    match find_last(name, '.') {
        Some(i) => {
            if i > 0 {
                proof {
                    assert(name@.skip(i + 1) =~= name@.subrange(i + 1, length as int));
                }
                Some(String::from_str(name.substring_char(i + 1, length)))
            } else {
                None
            }
        },
        None => None,
    }
}

/// Whether `ext`, in lower case, is one of the binary extensions.
pub fn has_binary_extension(ext: &str) -> (r: bool)
    ensures
        r == is_binary_extension(ext@),
{
    same_text(ext, "png") || same_text(ext, "jpg") || same_text(ext, "jpeg") || same_text(
        ext,
        "gif",
    ) || same_text(ext, "pdf") || same_text(ext, "zip") || same_text(ext, "exe") || same_text(
        ext,
        "dll",
    ) || same_text(ext, "so") || same_text(ext, "dylib") || same_text(ext, "class") || same_text(
        ext,
        "pyc",
    ) || same_text(ext, "o")
}

/// Whether `list` holds a string with the characters of `text`.
pub fn contains_text(list: &Vec<String>, text: &str) -> (r: bool)
    ensures
        r == list.deep_view().contains(text@),
{
    let mut i: usize = 0;
    while i < list.len()
        invariant
            i <= list.len(),
            forall|j: int| 0 <= j < i ==> list.deep_view()[j] != text@,
        decreases list.len() - i,
    {
        if same_text(list[i].as_str(), text) {
            proof {
                assert(list.deep_view()[i as int] == text@);
            }
            return true;
        }
        i = i + 1;
    }
    false
}

impl TrackedFile {
    /// Whether the file's content is worth reading. A caller that reads
    /// files one by one may skip the content of the others.
    pub fn is_readable(&self) -> (r: bool)
        ensures
            r == self@.is_readable(),
    {
        let head: Option<&[u8]> = match &self.head {
            Some(bytes) => Some(bytes.as_slice()),
            None => None,
        };
        if RepoContext::is_binary_file(self.path.as_str(), head) {
            return false;
        }
        match self.size {
            Some(n) => n <= MAX_FILE_SIZE,
            None => false,
        }
    }

    /// The file's block for the context, if the file is included.
    pub fn preview(&self) -> (r: Option<String>)
        ensures
            match r {
                Some(block) => self@.is_included() && block@ == preview_block(
                    self@.path,
                    self@.text->0,
                ),
                None => !self@.is_included(),
            },
    {
        if !self.is_readable() {
            return None;
        }
        match &self.text {
            Some(text) => {
                let shown = take_chars(text.as_str(), PREVIEW_CHARS);
                let mut block = String::from_str("File: ");
                block.append(self.path.as_str());
                block.append("\nPreview:\n");
                block.append(shown.as_str());
                block.append("\n---");
                Some(block)
            },
            None => None,
        }
    }
}

impl RepoContext {
    #[verifier::type_invariant]
    spec fn tracks_each_path_once(&self) -> bool {
        self.tracked_files.deep_view().no_duplicates()
    }

    /// A cache that holds nothing yet. `now` is the caller's clock in
    /// milliseconds.
    pub fn new(now: u64) -> (context: RepoContext)
        ensures
            context@ == (RepoContextView { listed: Seq::empty(), cache: None, last_update: now }),
    {
        let context = RepoContext {
            tracked_files: Vec::new(),
            context_cache: None,
            last_update: now,
        };
        proof {
            assert(context.tracked_files.deep_view() =~= Seq::<Seq<char>>::empty());
        }
        context
    }

    /// Whether a file counts as binary, given its path and its first bytes,
    /// or `None` for a file that could not be opened or read. The answer is
    /// a guess from two signs; see [`is_binary`].
    pub fn is_binary_file(path: &str, head: Option<&[u8]>) -> (r: bool)
        ensures
            r == is_binary(path@, bytes_of(head)),
            head matches Some(bytes) && has_magic_number(bytes@) ==> r,
            head is None ==> !r,
    {
        let bytes = match head {
            Some(bytes) => bytes,
            None => {
                return false;
            },
        };
        if starts_with_magic_number(bytes) {
            return true;
        }
        match extension_of(path) {
            Some(ext) => {
                let lowered = to_ascii_lowercase(ext.as_str());
                has_binary_extension(lowered.as_str())
            },
            None => false,
        }
    }

    /// Whether the cached context may be served at `now`.
    pub fn is_fresh(&self, now: u64) -> (r: bool)
        ensures
            r == self@.is_fresh(now),
    {
        match &self.context_cache {
            Some(_) => now < self.last_update || now - self.last_update < FRESHNESS_WINDOW_MS,
            None => false,
        }
    }

    /// The cached context, while it is fresh. `None` tells the caller to
    /// list the repository and call [`RepoContext::update_context`].
    pub fn fresh_context(&self, now: u64) -> (r: Option<&String>)
        ensures
            match r {
                Some(text) => self@.is_fresh(now) && self@.cache == Some(text@),
                None => !self@.is_fresh(now),
            },
    {
        if self.is_fresh(now) {
            match &self.context_cache {
                Some(text) => Some(text),
                None => None,
            }
        } else {
            None
        }
    }

    /// The tracked paths, in the order of the last listing, each once.
    pub fn tracked_files(&self) -> (r: &Vec<String>)
        ensures
            r.deep_view() == self@.listed,
            self@.listed.no_duplicates(),
    {
        proof {
            use_type_invariant(self);
        }
        &self.tracked_files
    }

    /// Whether the last listing held `path`.
    pub fn is_tracked(&self, path: &str) -> (r: bool)
        ensures
            r == self@.listed.contains(path@),
    {
        contains_text(&self.tracked_files, path)
    }

    /// Builds the context anew from a listing, whatever the age of the cache.
    /// The tracked paths and the cached context are replaced together.
    pub fn rebuild(&mut self, now: u64, files: &Vec<TrackedFile>) -> (context: String)
        ensures
            final(self)@ == RepoContextView::rebuilt(now, files.deep_view()),
            context@ == context_of(files.deep_view()),
            final(self)@.listed.no_duplicates(),
    {
        let ghost listing = files.deep_view();
        let mut listed: Vec<String> = Vec::new();
        let mut parts: Vec<String> = Vec::new();
        let mut i: usize = 0;
        proof {
            assert(listed.deep_view() =~= paths(first_occurrences(listing.take(0))));
            assert(parts.deep_view() =~= context_blocks(listing.take(0)));
        }
        while i < files.len()
            invariant
                i <= files.len(),
                listing == files.deep_view(),
                listed.deep_view() == paths(first_occurrences(listing.take(i as int))),
                parts.deep_view() == context_blocks(listing.take(i as int)),
            decreases files.len() - i,
        {
            let file = &files[i];
            let ghost shorter = listing.take(i as int);
            let ghost longer = listing.take(i + 1);
            let ghost earlier = first_occurrences(shorter);
            proof {
                assert(longer.drop_last() =~= shorter);
                assert(longer.last() == file@);
            }
            if !contains_text(&listed, file.path.as_str()) {
                let ghost listed_before = listed.deep_view();
                let ghost parts_before = parts.deep_view();
                listed.push(file.path.clone());
                proof {
                    assert(first_occurrences(longer) == earlier.push(file@));
                    assert(listed.deep_view() =~= listed_before.push(file@.path));
                    assert(paths(earlier.push(file@)) =~= paths(earlier).push(file@.path));
                    assert(earlier.push(file@).drop_last() =~= earlier);
                }
                match file.preview() {
                    Some(block) => {
                        parts.push(block);
                        proof {
                            assert(parts.deep_view() =~= parts_before.push(block@));
                        }
                    },
                    None => {},
                }
            }
            i = i + 1;
        }
        proof {
            assert(listing.take(files.len() as int) =~= listing);
            lemma_paths_of_first_occurrences(listing);
        }
        let context = join_lines(&parts);
        self.tracked_files = listed;
        self.context_cache = Some(context.clone());
        self.last_update = now;
        context
    }

    /// Serves the cached context while it is fresh and builds it anew from
    /// the listing otherwise. While the cache is fresh the listing is not
    /// looked at, so a caller may ask [`RepoContext::fresh_context`] first
    /// and list the repository only when told to.
    pub fn update_context(&mut self, now: u64, files: &Vec<TrackedFile>) -> (context: String)
        ensures
            final(self)@ == old(self)@.updated(now, files.deep_view()),
            Some(context@) == final(self)@.cache,
    {
        if self.is_fresh(now) {
            match &self.context_cache {
                Some(text) => text.clone(),
                None => String::new(),
            }
        } else {
            self.rebuild(now, files)
        }
    }

    /// The full text of a tracked file that is not binary. `head` holds the
    /// file's first bytes, or `None` for a file that could not be opened,
    /// and `text` what reading it gave. The answer is `Ok(None)` for a path
    /// that is not tracked or a file that counts as binary, and an error for
    /// a file that should be served and was not read; a tracked file that
    /// could not be opened is such a file, whatever its name.
    pub fn get_file_content(&self, path: &str, head: Option<&[u8]>, text: Option<String>) -> (r:
        Result<
        Option<String>,
        ContextError,
    >)
        ensures
            !self@.listed.contains(path@) || is_binary(path@, bytes_of(head)) ==> r == Ok::<
                Option<String>,
                ContextError,
            >(None),
            self@.listed.contains(path@) && !is_binary(path@, bytes_of(head)) ==> match text {
                Some(content) => r == Ok::<Option<String>, ContextError>(Some(content)),
                None => r matches Err(ContextError::ReadFailed(p)) && p@ == path@,
            },
    {
        if !self.is_tracked(path) || Self::is_binary_file(path, head) {
            return Ok(None);
        }
        match text {
            Some(content) => Ok(Some(content)),
            None => Err(ContextError::ReadFailed(String::from_str(path))),
        }
    }
}

/// A file whose first bytes show a magic number counts as binary under any
/// path, whatever its extension.
pub proof fn law_magic_number_overrides_extension(path: Seq<char>, other: Seq<char>, head: Seq<u8>)
    requires
        has_magic_number(head),
    ensures
        is_binary(path, Some(head)),
        is_binary(other, Some(head)),
{
}

/// A file that could not be opened or read does not count as binary under
/// any path, whatever its extension.
pub proof fn law_unread_file_is_not_binary(path: Seq<char>)
    ensures
        !is_binary(path, None),
{
}

/// No more than the first eight bytes of a file bear on whether it shows a
/// magic number.
pub proof fn law_eight_bytes_decide(head: Seq<u8>)
    requires
        head.len() >= 8,
    ensures
        has_magic_number(head) == has_magic_number(head.take(8)),
{
    let cut = head.take(8);
    assert(png_magic().is_prefix_of(head) == png_magic().is_prefix_of(cut)) by {
        assert(head.subrange(0, 8) =~= cut.subrange(0, 8));
    }
    assert(jpeg_magic().is_prefix_of(head) == jpeg_magic().is_prefix_of(cut)) by {
        assert(head.subrange(0, 3) =~= cut.subrange(0, 3));
    }
    assert(gif87_magic().is_prefix_of(head) == gif87_magic().is_prefix_of(cut)) by {
        assert(head.subrange(0, 6) =~= cut.subrange(0, 6));
    }
    assert(gif89_magic().is_prefix_of(head) == gif89_magic().is_prefix_of(cut)) by {
        assert(head.subrange(0, 6) =~= cut.subrange(0, 6));
    }
    assert(zip_magic().is_prefix_of(head) == zip_magic().is_prefix_of(cut)) by {
        assert(head.subrange(0, 4) =~= cut.subrange(0, 4));
    }
}

/// Two requests that both fall within the freshness window of the cache are
/// answered with the same context and leave the cache as it was, whatever
/// listings come with them: neither listing is needed.
pub proof fn law_fresh_requests_agree(
    cache: RepoContextView,
    first: u64,
    second: u64,
    first_listing: Seq<TrackedFileView>,
    second_listing: Seq<TrackedFileView>,
)
    requires
        cache.is_fresh(first),
        cache.is_fresh(second),
    ensures
        cache.updated(first, first_listing) == cache,
        cache.updated(first, first_listing).updated(second, second_listing) == cache,
        cache.updated(first, first_listing).cache == cache.updated(first, first_listing).updated(
            second,
            second_listing,
        ).cache,
{
}

/// After a request that built the context, every request less than the
/// freshness window later is answered from the cache: with the same context
/// and without a look at its listing.
pub proof fn law_request_after_build_is_served(
    cache: RepoContextView,
    first: u64,
    second: u64,
    first_listing: Seq<TrackedFileView>,
    second_listing: Seq<TrackedFileView>,
)
    requires
        !cache.is_fresh(first),
        second - first < FRESHNESS_WINDOW_MS,
    ensures
        cache.updated(first, first_listing).is_fresh(second),
        cache.updated(first, first_listing).updated(second, second_listing) == cache.updated(
            first,
            first_listing,
        ),
        cache.updated(first, first_listing).cache == Some(context_of(first_listing)),
{
}

/// Every block of a context shows a file of the listing that does not count
/// as binary, is no larger than the size limit and was read as text.
pub proof fn law_blocks_show_admitted_files(files: Seq<TrackedFileView>, k: int)
    requires
        0 <= k < context_blocks(files).len(),
    ensures
        exists|i: int|
            0 <= i < files.len() && !is_binary(#[trigger] files[i].path, files[i].head)
                && files[i].size is Some && files[i].size->0 <= MAX_FILE_SIZE
                && files[i].text is Some && context_blocks(files)[k] == preview_block(
                files[i].path,
                files[i].text->0,
            ),
{
    let kept = first_occurrences(files);
    lemma_block_has_source(kept, k);
    let j = choose|j: int|
        0 <= j < kept.len() && (#[trigger] kept[j]).is_included() && blocks(kept)[k]
            == preview_block(kept[j].path, kept[j].text->0);
    lemma_first_occurrences_are_entries(files, j);
}

proof fn lemma_block_has_source(files: Seq<TrackedFileView>, k: int)
    requires
        0 <= k < blocks(files).len(),
    ensures
        exists|j: int|
            0 <= j < files.len() && (#[trigger] files[j]).is_included() && blocks(files)[k]
                == preview_block(files[j].path, files[j].text->0),
    decreases files.len(),
{
    let shorter = files.drop_last();
    let last = files.last();
    if last.is_included() && k == blocks(shorter).len() {
        assert(files[files.len() - 1].is_included());
    } else {
        lemma_block_has_source(shorter, k);
        let j = choose|j: int|
            0 <= j < shorter.len() && (#[trigger] shorter[j]).is_included() && blocks(shorter)[k]
                == preview_block(shorter[j].path, shorter[j].text->0);
        assert(files[j].is_included());
    }
}

proof fn lemma_first_occurrences_are_entries(files: Seq<TrackedFileView>, j: int)
    requires
        0 <= j < first_occurrences(files).len(),
    ensures
        exists|i: int| 0 <= i < files.len() && #[trigger] files[i] == first_occurrences(files)[j],
    decreases files.len(),
{
    let shorter = files.drop_last();
    let earlier = first_occurrences(shorter);
    if j < earlier.len() {
        lemma_first_occurrences_are_entries(shorter, j);
        let i = choose|i: int| 0 <= i < shorter.len() && #[trigger] shorter[i] == earlier[j];
        assert(files[i] == first_occurrences(files)[j]);
    } else {
        assert(files[files.len() - 1] == first_occurrences(files)[j]);
    }
}

} // verus!

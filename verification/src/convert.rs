//! What the two operations take and give: named files in, a result and
//! named files out.

use vstd::prelude::*;
use vstd::string::*;

verus! {

/// A file handed to an operation: its name and its content.
#[derive(Clone, Debug, PartialEq, Eq)]
pub struct InputFile {
    pub name: String,
    pub data: Vec<u8>,
}

/// A file that an operation produced, to be offered under `file_name`.
#[derive(Clone, Debug, PartialEq, Eq)]
pub struct Download {
    pub file_name: String,
    pub data: Vec<u8>,
}

/// What a download is in contracts: its name and its content.
pub struct DownloadView {
    pub file_name: Seq<char>,
    pub data: Seq<u8>,
}

impl View for Download {
    type V = DownloadView;

    open spec fn view(&self) -> DownloadView {
        DownloadView { file_name: self.file_name@, data: self.data@ }
    }
}

/// The views of the downloads `s`, in their order.
pub open spec fn download_views(s: Seq<Download>) -> Seq<DownloadView> {
    Seq::new(s.len(), |i: int| s[i]@)
}

/// How an operation ended: without a message it succeeded; with one it
/// produced nothing, and the message says why.
#[derive(Clone, Debug, PartialEq, Eq)]
pub struct ConversionResult {
    error: Option<String>,
}

impl View for ConversionResult {
    type V = Option<Seq<char>>;

    closed spec fn view(&self) -> Option<Seq<char>> {
        match self.error {
            Some(message) => Some(message@),
            None => None,
        }
    }
}

impl ConversionResult {
    /// The result of an operation that succeeded.
    pub fn success() -> (r: Self)
        ensures
            r@ == None::<Seq<char>>,
    {
        ConversionResult { error: None }
    }

    /// The result of an operation that produced nothing, for the reason
    /// that `message` gives.
    pub fn failure(message: &str) -> (r: Self)
        ensures
            r@ == Some(message@),
    {
        ConversionResult { error: Some(String::from_str(message)) }
    }

    /// The message, if the operation produced nothing.
    pub fn error(&self) -> (r: Option<String>)
        ensures
            match r {
                Some(message) => self@ == Some(message@),
                None => self@ == None::<Seq<char>>,
            },
    {
        match &self.error {
            Some(message) => Some(message.clone()),
            None => None,
        }
    }
}

/// The result of an operation and the files that it produced, in the order
/// in which they are offered.
#[derive(Clone, Debug, PartialEq, Eq)]
pub struct Conversion {
    pub result: ConversionResult,
    pub downloads: Vec<Download>,
}

/// One of the two operations.
#[derive(Clone, Copy, Debug, PartialEq, Eq)]
pub enum Operation {
    /// Merge per-device files into one container.
    Create,
    /// Split one container into per-device files.
    Split,
}

/// Decides which operation a request asks for: the one whose flag is set,
/// and none where both flags or neither are set.
pub fn convert(is_create: bool, is_split: bool) -> (r: Option<Operation>)
    ensures
        r == if is_create && !is_split {
            Some(Operation::Create)
        } else if is_split && !is_create {
            Some(Operation::Split)
        } else {
            None::<Operation>
        },
{
    if is_create && !is_split {
        Some(Operation::Create)
    } else if is_split && !is_create {
        Some(Operation::Split)
    } else {
        None
    }
}

/// The index of the last `.` among the first `n` characters of `name`.
pub open spec fn last_dot(name: Seq<char>, n: nat) -> Option<int>
    decreases n,
{
    if n == 0 {
        None
    } else if name[n - 1] == '.' {
        Some(n - 1)
    } else {
        last_dot(name, (n - 1) as nat)
    }
}

/// `name` with everything from its last `.` on replaced by `ext`; a name
/// without a `.` gets `ext` appended.
pub open spec fn with_extension_spec(name: Seq<char>, ext: Seq<char>) -> Seq<char> {
    match last_dot(name, name.len()) {
        Some(i) => name.subrange(0, i) + ext,
        None => name + ext,
    }
}

/// `last_dot` finds a `.` behind which no other stands, and finds none only
/// where there is none.
pub proof fn last_dot_is_last(name: Seq<char>, n: nat)
    requires
        n <= name.len(),
    ensures
        match last_dot(name, n) {
            Some(i) => 0 <= i < n && name[i] == '.' && forall|j: int| i < j < n ==> name[j] != '.',
            None => forall|j: int| 0 <= j < n ==> name[j] != '.',
        },
    decreases n,
{
    if n > 0 && name[n - 1] != '.' {
        last_dot_is_last(name, (n - 1) as nat);
    }
}

/// Replaces the extension of `name` by `ext`.
pub fn with_extension(name: &str, ext: &str) -> (r: String)
    ensures
        r@ == with_extension_spec(name@, ext@),
{
    let n: usize = name.unicode_len();
    let mut cut: usize = n;
    let mut i: usize = n;
    let mut found: bool = false;
    while i > 0 && !found
        invariant
            i <= n,
            n == name@.len(),
            !found ==> cut == n && last_dot(name@, n as nat) == last_dot(name@, i as nat),
            found ==> cut < n && last_dot(name@, n as nat) == Some(cut as int),
        decreases i,
    {
        i = i - 1;
        if name.get_char(i) == '.' {
            cut = i;
            found = true;
        }
    }
    let mut ret: String = String::from_str(name.substring_char(0, cut));
    ret.append(ext);
    proof {
        if cut == n {
            assert(name@.subrange(0, n as int) =~= name@);
        }
    }
    ret
}

/// Makes the download of the bytes `buf` under the name `file_name`.
pub fn download_file(buf: &[u8], file_name: String) -> (r: Download)
    ensures
        r@ == (DownloadView { file_name: file_name@, data: buf@ }),
{
    Download { file_name, data: vstd::slice::slice_to_vec(buf) }
}

} // verus!

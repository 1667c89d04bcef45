//! Writing and removing files. A file whose content has not changed is not
//! written again, which is what keeps scripts and requests from being run for
//! nothing. The file system is worked on outside of this module: what is to be
//! done next is handed out, and what came of it is handed back.

use vstd::prelude::*;

use crate::env::EnvVars;
use crate::kubeapi::{kind_name, Kind};
use crate::logger::{Level, LogEntry};
use crate::number::{parse_unsigned, parsed};
use crate::outside::{sha256, sha256_digest};
use crate::text::{cat2, cat3, cat5, cut_at_first, ends_with_char, opt_view, starts_with_char};

verus! {

/// How text data is called in log messages.
pub const CONTENT_TYPE_TEXT: &'static str = "ascii";

/// How binary data is called in log messages.
pub const CONTENT_TYPE_BASE64_BINARY: &'static str = "binary";

// ---------------------------------------------------------------------------
// Paths and names
// ---------------------------------------------------------------------------

/// The path of a file in a folder. An absolute name stands for itself.
pub open spec fn path_in(folder: Seq<char>, filename: Seq<char>) -> Seq<char> {
    if filename.len() > 0 && filename[0] == '/' {
        filename
    } else if folder.len() == 0 || folder.last() == '/' {
        folder + filename
    } else {
        folder + "/"@ + filename
    }
}

/// The path of a file in a folder.
pub fn file_path(folder: &str, filename: &str) -> (r: String)
    ensures
        r@ == path_in(folder@, filename@),
{
    if starts_with_char(filename, '/') {
        filename.to_string()
    } else if folder.is_empty() || ends_with_char(folder, '/') {
        cat2(folder, filename)
    } else {
        cat3(folder, "/", filename)
    }
}

/// A file name that says which resource the file comes from.
pub open spec fn unique_name(
    filename: Seq<char>,
    namespace: Seq<char>,
    resource: Seq<char>,
    resource_name: Seq<char>,
) -> Seq<char> {
    "namespace_"@ + namespace + "."@ + resource + "_"@ + resource_name + "."@ + filename
}

/// A file name that says which resource the file comes from.
pub fn unique_filename(
    filename: &str,
    namespace: &str,
    resource: &str,
    resource_name: &str,
) -> (r: String)
    ensures
        r@ == unique_name(filename@, namespace@, resource@, resource_name@),
{
    let mut out = cat5("namespace_", namespace, ".", resource, "_");
    out.append(resource_name);
    out.append(".");
    out.append(filename);
    out
}

/// Files of different resources, and different files of one resource, have
/// different unique names, as long as namespaces and names hold no dot.
pub proof fn unique_names_differ(
    file1: Seq<char>,
    namespace1: Seq<char>,
    kind1: Kind,
    name1: Seq<char>,
    file2: Seq<char>,
    namespace2: Seq<char>,
    kind2: Kind,
    name2: Seq<char>,
)
    requires
        !namespace1.contains('.'),
        !namespace2.contains('.'),
        !name1.contains('.'),
        !name2.contains('.'),
        unique_name(file1, namespace1, kind_name(kind1), name1) == unique_name(
            file2,
            namespace2,
            kind_name(kind2),
            name2,
        ),
    ensures
        file1 == file2,
        namespace1 == namespace2,
        kind1 == kind2,
        name1 == name2,
{
    reveal_strlit("namespace_");
    reveal_strlit(".");
    reveal_strlit("_");
    reveal_strlit("configmap");
    reveal_strlit("secret");
    let k1 = kind_name(kind1);
    let k2 = kind_name(kind2);
    assert(!k1.contains('_') && !k2.contains('_'));
    let whole1 = unique_name(file1, namespace1, k1, name1);
    let whole2 = unique_name(file2, namespace2, k2, name2);
    let rest1 = k1 + seq!['_'] + (name1 + seq!['.'] + file1);
    let rest2 = k2 + seq!['_'] + (name2 + seq!['.'] + file2);
    assert(whole1.skip(10) =~= namespace1 + seq!['.'] + rest1);
    assert(whole2.skip(10) =~= namespace2 + seq!['.'] + rest2);
    cut_at_first(namespace1, rest1, namespace2, rest2, '.');
    cut_at_first(k1, name1 + seq!['.'] + file1, k2, name2 + seq!['.'] + file2, '_');
    cut_at_first(name1, file1, name2, file2, '.');
    assert(kind1 == kind2) by {
        assert("configmap"@.len() == 9 && "secret"@.len() == 6);
    }
}

/// Different files of one resource have different unique names.
pub proof fn unique_names_keep_files_apart(
    file1: Seq<char>,
    file2: Seq<char>,
    namespace: Seq<char>,
    resource: Seq<char>,
    name: Seq<char>,
)
    requires
        unique_name(file1, namespace, resource, name) == unique_name(file2, namespace, resource, name),
    ensures
        file1 == file2,
{
    let head = "namespace_"@ + namespace + "."@ + resource + "_"@ + name + "."@;
    assert((head + file1).skip(head.len() as int) =~= file1);
    assert((head + file2).skip(head.len() as int) =~= file2);
}

// ---------------------------------------------------------------------------
// Writing
// ---------------------------------------------------------------------------

/// A file to be written.
pub struct WriteTask {
    pub folder: String,
    pub filename: String,
    pub path: String,
    pub data: Vec<u8>,
    pub data_type: &'static str,
}

/// The task is to write `data` to the file `filename` in `folder`.
pub open spec fn asked_for(
    task: WriteTask,
    folder: Seq<char>,
    filename: Seq<char>,
    data: Seq<u8>,
    data_type: Seq<char>,
) -> bool {
    &&& task.folder@ == folder
    &&& task.filename@ == filename
    &&& task.path@ == path_in(folder, filename)
    &&& task.data@ == data
    &&& task.data_type@ == data_type
}

/// Why a folder could not be made.
#[derive(Clone, Copy, PartialEq, Eq, Structural, Debug)]
pub enum FolderError {
    PermissionDenied,
    AlreadyExists,
    Other,
}

/// Why a file could not be written.
#[derive(Clone, Copy, PartialEq, Eq, Structural, Debug)]
pub enum WriteError {
    /// The file system did not do what it was asked to.
    FileSystem,
    /// `DEFAULT_FILE_MODE` is no octal number.
    BadFileMode,
}

/// What is to be done next to write a file.
pub enum WriteStep {
    /// Make the folder, then call [`WriteTask::folder_made`].
    MakeFolder(WriteTask),
    /// Read the file if it is there, then call [`WriteTask::current_read`].
    ReadCurrent(WriteTask),
    /// Log, and write the file, then call [`WriteTask::written`].
    Write(LogEntry, WriteTask),
    /// Set the mode of the file, then call [`WriteTask::mode_set`].
    SetMode(u32, WriteTask),
    /// Log, if there is anything to log. The file was written or not, or that
    /// failed.
    Done(Option<LogEntry>, Result<bool, WriteError>),
}

/// The writing is over, with nothing left to log.
pub open spec fn done(step: WriteStep, result: Result<bool, WriteError>) -> bool {
    step == WriteStep::Done(None, result)
}

/// The message that a file is not written since it has not changed.
pub open spec fn unchanged_message(filename: Seq<char>) -> Seq<char> {
    "Contents of "@ + filename + " haven't changed. Not overwriting existing file"@
}

/// The message that a file is written.
pub open spec fn writing_message(path: Seq<char>, data_type: Seq<char>) -> Seq<char> {
    "Writing "@ + path + " ("@ + data_type + ")"@
}

/// The message that a folder cannot be made.
pub open spec fn forbidden_message(folder: Seq<char>, filename: Seq<char>) -> Seq<char> {
    "Error: insufficient privileges to create "@ + folder + ". Skipping "@ + filename + "."@
}

/// Starts writing `data` to a file. First the folder is made, unless it is
/// there.
pub fn write_data_to_file(
    folder: &str,
    filename: &str,
    data: Vec<u8>,
    data_type: &'static str,
    folder_exists: bool,
) -> (r: WriteStep)
    ensures
        folder_exists ==> (r matches WriteStep::ReadCurrent(t) && asked_for(
            t,
            folder@,
            filename@,
            data@,
            data_type@,
        )),
        !folder_exists ==> (r matches WriteStep::MakeFolder(t) && asked_for(
            t,
            folder@,
            filename@,
            data@,
            data_type@,
        )),
{
    let task = WriteTask {
        folder: folder.to_string(),
        filename: filename.to_string(),
        path: file_path(folder, filename),
        data,
        data_type,
    };
    if folder_exists {
        WriteStep::ReadCurrent(task)
    } else {
        WriteStep::MakeFolder(task)
    }
}

/// Whether two byte strings are the same.
pub fn same_bytes(a: &[u8], b: &[u8]) -> (r: bool)
    ensures
        r == (a@ == b@),
{
    if a.len() != b.len() {
        return false;
    }
    let mut i: usize = 0;
    while i < a.len()
        invariant
            i <= a@.len(),
            a@.len() == b@.len(),
            forall|j: int| 0 <= j < i ==> a@[j] == b@[j],
        decreases a@.len() - i,
    {
        if a[i] != b[i] {
            return false;
        }
        i += 1;
    }
    assert(a@ =~= b@);
    true
}

/// What follows when the digests of the new and of the current content of a
/// file are known: equal digests end the writing, others let it go on.
pub open spec fn compared(task: WriteTask, equal: bool, step: WriteStep) -> bool {
    if equal {
        &&& step matches WriteStep::Done(Some(entry), result)
        &&& entry@ == (Level::Debug, unchanged_message(task.filename@))
        &&& result == Ok::<bool, WriteError>(false)
    } else {
        writing(task, step)
    }
}

/// The file is written next.
pub open spec fn writing(task: WriteTask, step: WriteStep) -> bool {
    &&& step matches WriteStep::Write(entry, t)
    &&& entry@ == (Level::Info, writing_message(task.path@, task.data_type@))
    &&& t == task
}

/// What follows when it is known what a file holds: nothing if it is not
/// there.
pub open spec fn after_reading(task: WriteTask, current: Option<Seq<u8>>, step: WriteStep) -> bool {
    match current {
        None => writing(task, step),
        Some(bytes) => compared(task, sha256(task.data@) == sha256(bytes), step),
    }
}

/// What follows when a file was written: its mode is set, if there is one to
/// be set.
pub open spec fn after_writing(
    task: WriteTask,
    vars: Map<Seq<char>, Seq<char>>,
    step: WriteStep,
) -> bool {
    match file_mode(vars) {
        None => done(step, Ok(true)),
        Some(None) => done(step, Err(WriteError::BadFileMode)),
        Some(Some(mode)) => {
            &&& step matches WriteStep::SetMode(m, t)
            &&& m == mode
            &&& t == task
        },
    }
}

/// The mode that files are given: `DEFAULT_FILE_MODE` in octal notation, if it
/// is set and not empty. No mode is read from a text that is no such number.
pub open spec fn file_mode(vars: Map<Seq<char>, Seq<char>>) -> Option<Option<nat>> {
    let name = "DEFAULT_FILE_MODE"@;
    if vars.contains_key(name) && vars[name].len() > 0 {
        Some(parsed(vars[name], 8, u32::MAX as nat))
    } else {
        None
    }
}

impl WriteTask {
    /// The folder was made, or not. A folder that may not be made is passed
    /// over, with a message; one that is there after all is as good as made.
    pub fn folder_made(self, outcome: Result<(), FolderError>) -> (r: WriteStep)
        ensures
            match outcome {
                Err(FolderError::PermissionDenied) => {
                    &&& r matches WriteStep::Done(Some(entry), result)
                    &&& entry@ == (Level::Error, forbidden_message(self.folder@, self.filename@))
                    &&& result == Ok::<bool, WriteError>(false)
                },
                Err(FolderError::Other) => done(r, Err(WriteError::FileSystem)),
                _ => r == WriteStep::ReadCurrent(self),
            },
    {
        match outcome {
            Err(FolderError::PermissionDenied) => {
                let message = cat5(
                    "Error: insufficient privileges to create ",
                    self.folder.as_str(),
                    ". Skipping ",
                    self.filename.as_str(),
                    ".",
                );
                WriteStep::Done(Some(LogEntry { level: Level::Error, message }), Ok(false))
            },
            Err(FolderError::Other) => WriteStep::Done(None, Err(WriteError::FileSystem)),
            _ => WriteStep::ReadCurrent(self),
        }
    }

    /// What is in the file now was read: nothing if there is no file.
    pub fn current_read(self, current: Result<Option<Vec<u8>>, ()>) -> (r: WriteStep)
        ensures
            match current {
                Err(_) => done(r, Err(WriteError::FileSystem)),
                Ok(None) => after_reading(self, None, r),
                Ok(Some(bytes)) => after_reading(self, Some(bytes@), r),
            },
    {
        match current {
            Err(_) => WriteStep::Done(None, Err(WriteError::FileSystem)),
            Ok(None) => self.write_next(),
            Ok(Some(bytes)) => {
                let new_digest = sha256_digest(self.data.as_slice());
                let current_digest = sha256_digest(bytes.as_slice());
                self.compare_digests(new_digest.as_slice(), current_digest.as_slice())
            },
        }
    }

    /// Goes on with writing unless the digests are equal.
    pub fn compare_digests(self, new_digest: &[u8], current_digest: &[u8]) -> (r: WriteStep)
        ensures
            compared(self, new_digest@ == current_digest@, r),
    {
        if same_bytes(new_digest, current_digest) {
            let message = cat3(
                "Contents of ",
                self.filename.as_str(),
                " haven't changed. Not overwriting existing file",
            );
            WriteStep::Done(Some(LogEntry { level: Level::Debug, message }), Ok(false))
        } else {
            self.write_next()
        }
    }

    fn write_next(self) -> (r: WriteStep)
        ensures
            writing(self, r),
    {
        let message = cat5("Writing ", self.path.as_str(), " (", self.data_type, ")");
        WriteStep::Write(LogEntry { level: Level::Info, message }, self)
    }

    /// The file was written, or not. Then its mode is set, if there is one to
    /// be set.
    pub fn written(self, outcome: Result<(), ()>, vars: &EnvVars) -> (r: WriteStep)
        ensures
            match outcome {
                Err(_) => done(r, Err(WriteError::FileSystem)),
                Ok(_) => after_writing(self, vars@, r),
            },
    {
        if outcome.is_err() {
            return WriteStep::Done(None, Err(WriteError::FileSystem));
        }
        match vars.get("DEFAULT_FILE_MODE") {
            Some(text) if !text.as_str().is_empty() => {
                match parse_unsigned(text.as_str(), 8, u32::MAX as u64) {
                    Some(mode) => WriteStep::SetMode(mode as u32, self),
                    None => WriteStep::Done(None, Err(WriteError::BadFileMode)),
                }
            },
            _ => WriteStep::Done(None, Ok(true)),
        }
    }

    /// The mode was set, or not.
    pub fn mode_set(self, outcome: Result<(), ()>) -> (r: WriteStep)
        ensures
            match outcome {
                Ok(_) => done(r, Ok(true)),
                Err(_) => done(r, Err(WriteError::FileSystem)),
            },
    {
        match outcome {
            Ok(_) => WriteStep::Done(None, Ok(true)),
            Err(_) => WriteStep::Done(None, Err(WriteError::FileSystem)),
        }
    }
}

/// A file that holds what is to be written is not written: a step that follows
/// the reading of it neither writes nor counts as a change.
pub proof fn unchanged_content_is_not_written(task: WriteTask, current: Seq<u8>, step: WriteStep)
    ensures
        current == task.data@ && compared(task, sha256(task.data@) == sha256(current), step) ==> (
        step matches WriteStep::Done(_, result) && result == Ok::<bool, WriteError>(false)),
{
}

/// A file is passed over only if its digest is that of what is to be written.
pub proof fn different_digest_is_written(task: WriteTask, current: Seq<u8>, step: WriteStep)
    ensures
        sha256(task.data@) != sha256(current) && compared(
            task,
            sha256(task.data@) == sha256(current),
            step,
        ) ==> writing(task, step),
{
}

// ---------------------------------------------------------------------------
// Removing
// ---------------------------------------------------------------------------

/// What is to be done to remove a file.
pub struct Removal {
    /// To be logged first.
    pub log: LogEntry,
    /// The file to be removed, if there is one; then call
    /// [`Removal::outcome`].
    pub path: Option<String>,
}

/// What is logged when a file is to be removed, which is there or not.
pub open spec fn removal_entry(path: Seq<char>, is_file: bool) -> (Level, Seq<char>) {
    if is_file {
        (Level::Info, "Removing "@ + path)
    } else {
        (Level::Error, "Unable to remove "@ + path + ", file not found"@)
    }
}

/// Whether a file that is to be removed is: it has to be there, and its
/// removal to succeed.
pub open spec fn is_removed(is_file: bool, succeeds: bool) -> bool {
    is_file && succeeds
}

/// Says what is to be done to remove a file, given whether it is there as a
/// file. That it is not is an error.
pub fn remove_file(folder: &str, filename: &str, is_file: bool) -> (r: Removal)
    ensures
        r.log@ == removal_entry(path_in(folder@, filename@), is_file),
        opt_view(r.path) == (if is_file {
            Some(path_in(folder@, filename@))
        } else {
            None
        }),
{
    let path = file_path(folder, filename);
    if is_file {
        let message = cat2("Removing ", path.as_str());
        Removal { log: LogEntry { level: Level::Info, message }, path: Some(path) }
    } else {
        let message = cat3("Unable to remove ", path.as_str(), ", file not found");
        Removal { log: LogEntry { level: Level::Error, message }, path: None }
    }
}

impl Removal {
    /// Whether the removal is a change, given whether it succeeded.
    pub fn outcome(&self, succeeded: bool) -> (r: bool)
        ensures
            r == is_removed(self.path is Some, succeeded),
    {
        self.path.is_some() && succeeded
    }
}

} // verus!

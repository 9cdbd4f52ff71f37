use vstd::prelude::*;

verus! {

/// The run's error taxonomy.
///
/// Directory reads, rule construction and worker faults are fatal for the
/// whole run; file reads and writes fail per file and the run continues.
/// The `source` (or `operation`) field carries the collaborator's own
/// description of the underlying failure as plain text.
#[derive(Debug)]
pub enum TailwindifyError {
    /// A directory could not be listed; fatal, with the path attached.
    DirectoryReadError { path: String, source: String },
    /// One file could not be read; the file is skipped.
    FileReadError { path: String, source: String },
    /// Renaming the finished temporary file onto the target failed;
    /// the target file keeps its old content.
    FileWriteError { path: String, source: String },
    /// A rule pattern could not be built; fatal, with the pattern attached.
    RegexError { pattern: String, source: String },
    /// A worker ended in a fault that its per-file handling did not catch;
    /// fatal for the whole run.
    ThreadError { source: String },
    /// Writing or persisting the temporary file failed before the rename;
    /// the target file keeps its old content.
    TempFileError { operation: String, source: String },
}

impl TailwindifyError {
    /// A fatal error for a directory that could not be listed.
    pub fn directory_read_error(path: String, source: String) -> (e: Self)
        ensures
            e == (TailwindifyError::DirectoryReadError { path, source }),
    {
        TailwindifyError::DirectoryReadError { path, source }
    }

    /// A per-file error for a file that could not be read.
    pub fn file_read_error(path: String, source: String) -> (e: Self)
        ensures
            e == (TailwindifyError::FileReadError { path, source }),
    {
        TailwindifyError::FileReadError { path, source }
    }

    /// A per-file error for a rename that did not replace the target.
    pub fn file_write_error(path: String, source: String) -> (e: Self)
        ensures
            e == (TailwindifyError::FileWriteError { path, source }),
    {
        TailwindifyError::FileWriteError { path, source }
    }

    /// A fatal error for a rule pattern that could not be built.
    pub fn regex_error(pattern: String, source: String) -> (e: Self)
        ensures
            e == (TailwindifyError::RegexError { pattern, source }),
    {
        TailwindifyError::RegexError { pattern, source }
    }

    /// A per-file error for a temporary file that could not be written.
    pub fn temp_file_error(operation: String, source: String) -> (e: Self)
        ensures
            e == (TailwindifyError::TempFileError { operation, source }),
    {
        TailwindifyError::TempFileError { operation, source }
    }
}

} // verus!

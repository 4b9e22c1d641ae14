use vstd::prelude::*;

verus! {

/// A log written to the file `log_file`.
pub struct FileLogger {
    log_file: String,
}

/// One line of the log.
pub open spec fn log_line(timestamp: Seq<char>, level: Seq<char>, message: Seq<char>) -> Seq<char> {
    timestamp + " ["@ + level + "] "@ + message + "\n"@
}

impl FileLogger {
    pub closed spec fn path(&self) -> Seq<char> {
        self.log_file@
    }

    /// A logger for the file `log_file`.
    pub fn new(log_file: &str) -> (l: FileLogger)
        ensures
            l.path() == log_file@,
    {
        FileLogger { log_file: String::from_str(log_file) }
    }

    /// The log file's path.
    pub fn log_file(&self) -> (p: &String)
        ensures
            p@ == self.path(),
    {
        &self.log_file
    }

    /// The line that records `message` at `level`, stamped with `timestamp`;
    /// the application appends it to the file.
    pub fn log_entry(&self, timestamp: &str, level: &str, message: &str) -> (line: String)
        ensures
            line@ == log_line(timestamp@, level@, message@),
    {
        let mut line = String::from_str(timestamp);
        line.append(" [");
        line.append(level);
        line.append("] ");
        line.append(message);
        line.append("\n");
        line
    }
}

/// Sets up logging to `log_file`; the level is not used. Nothing can fail:
/// the file is only opened when a line is written.
pub fn init_file_logging(log_file: &str, _level: &str) -> (r: Result<(), String>)
    ensures
        r is Ok,
{
    let _logger = FileLogger::new(log_file);
    Ok(())
}

} // verus!

use vstd::prelude::*;

verus! {

/// The named failure kinds of the emulated runtime's catalog that carry
/// no structure of their own beyond their shape's fields. They are
/// exposed as shared vocabulary for callers emulating that runtime; the
/// text layer itself raises only boundary failures.
#[derive(Clone, Copy, Debug, PartialEq, Eq, Structural)]
pub enum ErrorKind {
    AbstractMethodError,
    AccessDeniedException,
    AnnotationFormatError,
    AnnotationTypeMismatchException,
    ArithmeticException,
    ArrayIndexOutOfBoundsException,
    ArrayStoreException,
    AssertionError,
    BindException,
    BootstrapMethodError,
    CharConversionException,
    ClassCastException,
    ClassCircularityError,
    ClassFormatError,
    ClassNotFoundException,
    CloneNotSupportedError,
    ClosedDirectoryStreamException,
    ClosedFileSystemException,
    ClosedWatchServiceException,
    ConnectException,
    DateTimeException,
    DirectoryNotEmptyException,
    EOFException,
    EnumConstantNotPresentException,
    ExceptionInInitializerError,
    FileAlreadyExistsException,
    FileNotFoundException,
    FileSystemAlreadyExistsException,
    FileSystemException,
    FileSystemLoopException,
    FileSystemNotFoundException,
    GenericSignatureFormatError,
    IOException,
    IllegalAccessError,
    IllegalAccessException,
    IllegalArgumentException,
    IllegalCallerException,
    IllegalMonitorStateException,
    IllegalStateException,
    IllegalThreadStateException,
    InaccessibleObjectException,
    IncompatibleClassChangeError,
    IncompatibleClassChangeException,
    IncompleteAnnotationException,
    IndexOutOfBoundsException,
    InstantiationError,
    InstantiationException,
    InternalError,
    InterruptedException,
    InterruptedIOException,
    InvalidModuleDescriptorException,
    InvalidObjectException,
    LambdaConversionException,
    LayerInstantiationException,
    LinkageError,
    MalformedParameterizedTypeException,
    MalformedParametersException,
    MalformedURLException,
    MatchException,
    NegativeArraySizeException,
    NoClassDefFoundError,
    NoRouteToHostException,
    NoSuchFieldError,
    NoSuchFieldException,
    NoSuchFileException,
    NoSuchMethodError,
    NoSuchMethodException,
    NotActiveException,
    NotDirectoryException,
    NotLinkException,
    NotSerializableException,
    NullPointerException,
    NumberFormatException,
    ObjectStreamException,
    OutOfMemoryError,
    ParseException,
    PortUnreachableException,
    ProtocolException,
    ProviderMismatchException,
    ProviderNotFoundException,
    ReadOnlyFileSystemException,
    ReflectiveOperationException,
    ResolutionException,
    RuntimeException,
    SecurityException,
    SocketException,
    SocketTimeoutException,
    StackOverflowError,
    StreamCorruptedException,
    StringConcatException,
    SyncFailedException,
    TypeNotPresentException,
    UTFDataFormatException,
    UncheckedIOException,
    UndeclaredThrowableException,
    UnknownError,
    UnknownHostException,
    UnknownServiceException,
    UnsatisfiedLinkError,
    UnsupportedClassVersionError,
    UnsupportedEncodingException,
    UnsupportedOperationException,
    UnsupportedTemporalTypeException,
    VerifyError,
    VirtualMachineError,
    WriteAbortedException,
    WrongMethodTypeException,
    WrongThreadException,
    ZoneRulesException,
}

/// A failure record: one of the catalog's closed set of variant shapes,
/// tagged with its named kind. Constructed at the failure site,
/// propagated to the caller, never mutated afterward.
#[derive(Debug)]
pub enum ErrorRecord {
    /// A plain human-readable message.
    Message { kind: ErrorKind, message: String },
    /// A message together with an offending offset or index.
    Indexed { kind: ErrorKind, message: String, index: i32 },
    /// An optional message and an optional chained cause.
    Caused { kind: ErrorKind, message: Option<String>, cause: Option<Box<ErrorRecord>> },
    /// A file, an optional second file and an optional reason.
    PathInfo { kind: ErrorKind, file: String, other: Option<String>, reason: Option<String> },
    /// A kind with no fields at all.
    Marker { kind: ErrorKind },
}

impl ErrorRecord {
    /// The named kind of this record.
    pub open spec fn kind_of(&self) -> ErrorKind {
        match *self {
            ErrorRecord::Message { kind, .. } => kind,
            ErrorRecord::Indexed { kind, .. } => kind,
            ErrorRecord::Caused { kind, .. } => kind,
            ErrorRecord::PathInfo { kind, .. } => kind,
            ErrorRecord::Marker { kind, .. } => kind,
        }
    }

    /// Builds a plain-message record.
    pub fn message(kind: ErrorKind, message: String) -> (r: Self)
        ensures
            r == (ErrorRecord::Message { kind, message }),
    {
        ErrorRecord::Message { kind, message }
    }

    /// Builds a message-and-index record.
    pub fn indexed(kind: ErrorKind, message: String, index: i32) -> (r: Self)
        ensures
            r == (ErrorRecord::Indexed { kind, message, index }),
    {
        ErrorRecord::Indexed { kind, message, index }
    }

    /// Builds a record with an optional message and an optional cause.
    pub fn caused(kind: ErrorKind, message: Option<String>, cause: Option<Box<ErrorRecord>>) -> (r:
        Self)
        ensures
            r == (ErrorRecord::Caused { kind, message, cause }),
    {
        ErrorRecord::Caused { kind, message, cause }
    }

    /// Builds a filesystem-shaped record.
    pub fn path_info(
        kind: ErrorKind,
        file: String,
        other: Option<String>,
        reason: Option<String>,
    ) -> (r: Self)
        ensures
            r == (ErrorRecord::PathInfo { kind, file, other, reason }),
    {
        ErrorRecord::PathInfo { kind, file, other, reason }
    }

    /// Builds a fieldless record.
    pub fn marker(kind: ErrorKind) -> (r: Self)
        ensures
            r == (ErrorRecord::Marker { kind }),
    {
        ErrorRecord::Marker { kind }
    }

    /// The named kind, for dispatch by callers.
    pub fn kind(&self) -> (k: ErrorKind)
        ensures
            k == self.kind_of(),
    {
        match self {
            ErrorRecord::Message { kind, .. } => *kind,
            ErrorRecord::Indexed { kind, .. } => *kind,
            ErrorRecord::Caused { kind, .. } => *kind,
            ErrorRecord::PathInfo { kind, .. } => *kind,
            ErrorRecord::Marker { kind, .. } => *kind,
        }
    }
}

/// The failure raised when an abstract operation is entered directly.
#[derive(Clone, Debug, PartialEq)]
pub struct AbstractMethodError {
    pub message: String,
}

impl AbstractMethodError {
    pub fn new(message: String) -> (r: Self)
        ensures
            r.message == message,
    {
        Self { message }
    }
}

/// The boundary failure of the text layer: an index or range outside
/// `[0, length]`, carrying the offending index.
#[derive(Clone, Debug, PartialEq)]
pub struct StringIndexOutOfBoundsException {
    pub message: String,
    pub index: usize,
}

impl StringIndexOutOfBoundsException {
    pub fn new(message: String, index: usize) -> (r: Self)
        ensures
            r.message == message,
            r.index == index,
    {
        Self { message, index }
    }
}

/// A class found structurally unfit when read back, with the class name,
/// a message and an optional chained cause.
#[derive(Debug)]
pub struct InvalidClassException {
    pub cname: String,
    pub message: String,
    pub cause: Option<Box<ErrorRecord>>,
}

impl InvalidClassException {
    pub fn new(cname: String, message: String, cause: Option<Box<ErrorRecord>>) -> (r: Self)
        ensures
            r.cname == cname,
            r.message == message,
            r.cause == cause,
    {
        Self { cname, message, cause }
    }
}

/// A serious input/output failure, carrying only its optional cause.
#[derive(Debug)]
pub struct IOError {
    pub cause: Option<Box<ErrorRecord>>,
}

impl IOError {
    pub fn new(cause: Option<Box<ErrorRecord>>) -> (r: Self)
        ensures
            r.cause == cause,
    {
        Self { cause }
    }
}

/// A path string that cannot be converted, with the offending input, a
/// reason, and the index at which the conversion failed.
#[derive(Clone, Debug, PartialEq)]
pub struct InvalidPathException {
    pub input: String,
    pub reason: String,
    pub index: i32,
}

impl InvalidPathException {
    pub fn new(input: String, reason: String, index: i32) -> (r: Self)
        ensures
            r.input == input,
            r.reason == reason,
            r.index == index,
    {
        Self { input, reason, index }
    }
}

/// A failure met while iterating over a directory, wrapping its cause.
#[derive(Debug)]
pub struct DirectoryIteratorException {
    pub cause: Option<Box<ErrorRecord>>,
}

impl DirectoryIteratorException {
    pub fn new(cause: Option<Box<ErrorRecord>>) -> (r: Self)
        ensures
            r.cause == cause,
    {
        Self { cause }
    }
}

/// A coder that misbehaved, wrapping its cause.
#[derive(Debug)]
pub struct CoderMalfunctionError {
    pub cause: Option<Box<ErrorRecord>>,
}

impl CoderMalfunctionError {
    pub fn new(cause: Option<Box<ErrorRecord>>) -> (r: Self)
        ensures
            r.cause == cause,
    {
        Self { cause }
    }
}

/// Malformed textual input of a given length.
#[derive(Clone, Debug, PartialEq)]
pub struct MalformedInputException {
    pub input_length: i32,
}

impl MalformedInputException {
    pub fn new(input_length: i32) -> (r: Self)
        ensures
            r.input_length == input_length,
    {
        Self { input_length }
    }
}

impl Default for MalformedInputException {
    fn default() -> (r: Self)
        ensures
            r.input_length == 0,
    {
        Self::new(0)
    }
}

/// An input character that no target encoding can represent.
#[derive(Clone, Debug, PartialEq)]
pub struct UnmappableCharacterException {
    pub input_length: i32,
}

impl UnmappableCharacterException {
    pub fn new(input_length: i32) -> (r: Self)
        ensures
            r.input_length == input_length,
    {
        Self { input_length }
    }
}

impl Default for UnmappableCharacterException {
    fn default() -> (r: Self)
        ensures
            r.input_length == 0,
    {
        Self::new(0)
    }
}

} // verus!

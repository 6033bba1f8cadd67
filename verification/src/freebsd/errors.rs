//! Failures of system calls, and of the steps that use them.
use vstd::prelude::*;

verus! {

/// The error numbers that make a difference.
#[derive(Debug, Clone, Copy, PartialEq, Eq, Structural)]
pub enum Errno {
    /// `EINVAL`
    InvalidArgument,
    /// `EOPNOTSUPP`
    NotSupported,
    /// `EPERM`
    NotPermitted,
    /// `EACCES`
    AccessDenied,
    /// `ENOMEM`
    NoMemory,
    /// Any other number, or none.
    Other,
}

/// A failed system call: the error itself, and its number.
pub struct OsError<E> {
    pub error: E,
    pub errno: Errno,
}

/// Why a configuration file could not be staged.
pub enum ConfigError<E> {
    /// A system call failed.
    Os(E),
    /// The attribute list changed between its two reads.
    AttributeListChanged,
    /// The attribute list ends inside a name.
    InvalidAttributeList,
    /// An attribute name holds a NUL byte.
    NulInAttributeName(Vec<u8>),
    /// An attribute value changed between its two reads.
    AttributeChanged,
    /// An attribute value was set in part only.
    ShortAttributeWrite,
    /// The directory of a private file grants access by an NFSv4 ACL of its own.
    NontrivialDirectoryAcl,
    /// The mode bits differ although the NFSv4 ACL was set.
    ModeNotPreserved,
}

/// Why a configuration file could not be staged, over mathematical values.
pub enum ConfigErrorView<E> {
    Os(E),
    AttributeListChanged,
    InvalidAttributeList,
    NulInAttributeName(Seq<u8>),
    AttributeChanged,
    ShortAttributeWrite,
    NontrivialDirectoryAcl,
    ModeNotPreserved,
}

impl<E> View for ConfigError<E> {
    type V = ConfigErrorView<E>;

    open spec fn view(&self) -> ConfigErrorView<E> {
        match *self {
            ConfigError::Os(error) => ConfigErrorView::Os(error),
            ConfigError::AttributeListChanged => ConfigErrorView::AttributeListChanged,
            ConfigError::InvalidAttributeList => ConfigErrorView::InvalidAttributeList,
            ConfigError::NulInAttributeName(name) => ConfigErrorView::NulInAttributeName(name@),
            ConfigError::AttributeChanged => ConfigErrorView::AttributeChanged,
            ConfigError::ShortAttributeWrite => ConfigErrorView::ShortAttributeWrite,
            ConfigError::NontrivialDirectoryAcl => ConfigErrorView::NontrivialDirectoryAcl,
            ConfigError::ModeNotPreserved => ConfigErrorView::ModeNotPreserved,
        }
    }
}

/// The message of an error that has one of its own.
pub open spec fn error_message<E>(error: ConfigErrorView<E>) -> Option<Seq<char>> {
    match error {
        ConfigErrorView::Os(_) => None,
        ConfigErrorView::NulInAttributeName(_) => None,
        ConfigErrorView::AttributeListChanged => Some("config attribute list changed during copy"@),
        ConfigErrorView::InvalidAttributeList => Some("invalid extended attribute name list"@),
        ConfigErrorView::AttributeChanged => Some("config attribute changed during copy"@),
        ConfigErrorView::ShortAttributeWrite => Some("short extended attribute write"@),
        ConfigErrorView::NontrivialDirectoryAcl => Some(
            "cannot safely stage private config in a directory with a nontrivial NFSv4 ACL"@,
        ),
        ConfigErrorView::ModeNotPreserved => Some(
            "cannot preserve config mode without rewriting its NFSv4 ACL"@,
        ),
    }
}

impl<E> ConfigError<E> {
    /// The message of the error. The error of a system call, and that of a NUL byte in a name,
    /// speak for themselves.
    pub fn message(&self) -> (message: Option<&'static str>)
        ensures
            match message {
                Some(message) => error_message(self@) == Some(message@),
                None => error_message(self@) is None,
            },
    {
        match self {
            ConfigError::Os(_) => None,
            ConfigError::NulInAttributeName(_) => None,
            ConfigError::AttributeListChanged => Some("config attribute list changed during copy"),
            ConfigError::InvalidAttributeList => Some("invalid extended attribute name list"),
            ConfigError::AttributeChanged => Some("config attribute changed during copy"),
            ConfigError::ShortAttributeWrite => Some("short extended attribute write"),
            ConfigError::NontrivialDirectoryAcl => Some(
                "cannot safely stage private config in a directory with a nontrivial NFSv4 ACL",
            ),
            ConfigError::ModeNotPreserved => Some(
                "cannot preserve config mode without rewriting its NFSv4 ACL",
            ),
        }
    }
}

/// Two errors with one message are the same error, and only the error of a system call and that of a
/// NUL byte in a name have none.
pub proof fn messages_tell_errors_apart<E>(one: ConfigErrorView<E>, other: ConfigErrorView<E>)
    ensures
        error_message(one) is None <==> one is Os || one is NulInAttributeName,
        error_message(one) is Some && error_message(one) == error_message(other) ==> one == other,
{
    reveal_strlit("config attribute list changed during copy");
    reveal_strlit("invalid extended attribute name list");
    reveal_strlit("config attribute changed during copy");
    reveal_strlit("short extended attribute write");
    reveal_strlit("cannot safely stage private config in a directory with a nontrivial NFSv4 ACL");
    reveal_strlit("cannot preserve config mode without rewriting its NFSv4 ACL");
    assert("config attribute list changed during copy"@.len() == 41);
    assert("invalid extended attribute name list"@.len() == 36);
    assert("config attribute changed during copy"@.len() == 36);
    assert("short extended attribute write"@.len() == 30);
    assert("cannot safely stage private config in a directory with a nontrivial NFSv4 ACL"@.len() == 77);
    assert("cannot preserve config mode without rewriting its NFSv4 ACL"@.len() == 59);
    assert("invalid extended attribute name list"@[0] == 'i');
    assert("config attribute changed during copy"@[0] == 'c');
}

} // verus!

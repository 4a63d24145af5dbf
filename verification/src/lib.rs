//! Reads the properties of a mail message stored in a compound-file container:
//! subject, participants, sent time, bodies and attachments.

pub mod text;
pub mod timestamp;
pub mod utf16;
pub mod decode;
pub mod message;
pub mod tags;
pub mod rtf;
pub mod property;
pub mod container;
pub mod attachment;
pub mod aggregate;

pub use aggregate::{aggregate, parse_msg_to_struct};
pub use attachment::{parse_attachment, AttachmentError};
pub use container::{read_records, ParseError, StreamRecord};
pub use decode::{decode_with_encoding, TextEncoding};
pub use message::{Attachment, MsgEmail};
pub use property::parse_property;
pub use timestamp::filetime_to_string;

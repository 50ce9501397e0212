pub mod commands;
pub mod error;
pub mod laws;
pub mod mixed;
pub mod model;
pub mod offseted_reader;
pub mod parser;
pub mod subvolume;
pub mod tlv;
pub mod utils;

pub use commands::Bounded;
pub use commands::Command;
pub use error::ParseError;
pub use mixed::MixedString;
pub use model::FileEntry;
pub use model::FileInfo;
pub use model::FileMap;
pub use model::FileType;
pub use model::SubvolumeInfo;
pub use model::SubvolumeSource;
pub use model::Timestamp;
pub use offseted_reader::OffsetedReader;
pub use parser::Parser;
pub use parser::Settings;
pub use subvolume::Mutation;
pub use tlv::read_tlvs;
pub use tlv::TLVValue;
pub use tlv::TLVs;
pub use tlv::TLV;
pub use utils::hex;
pub use utils::read_bytes;
pub use utils::read_mixed;
pub use utils::read_timespec;
pub use utils::try_read;

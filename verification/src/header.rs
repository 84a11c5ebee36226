//! The 100-byte header at the start of a database file.

use vstd::prelude::*;
use crate::endian::{be_uint, le_uint, read_be_u32, read_le_u16};
use crate::error::FormatError;
use crate::text::{text_encoding_of, TextEncoding};

verus! {

/// The length of the database header in bytes.
pub const HEADER_SIZE: usize = 100;

/// The fields of the database header. All of them but the text encoding are
/// carried as the file holds them.
#[derive(Debug, Clone, PartialEq, Eq)]
pub struct DatabaseHeader {
    pub signature: [u8; 16],
    /// The page size as stored: 1 stands for 65536.
    pub page_size: u16,
    pub file_format_write_version: u8,
    pub file_format_read_version: u8,
    pub reserved_space: u8,
    pub max_embedded_payload_fraction: u8,
    pub min_embedded_payload_fraction: u8,
    pub leaf_payload_fraction: u8,
    pub file_change_counter: u32,
    pub database_size_pages: u32,
    pub first_freelist_trunk_page: u32,
    pub freelist_pages: u32,
    pub schema_cookie: u32,
    pub schema_format_number: u32,
    pub default_page_cache_size: u32,
    pub page_number_of_largest_root_btree_page: u32,
    pub text_encoding: TextEncoding,
    pub user_version: u32,
    pub incremental_vacuum_mode: u32,
    pub application_id: u32,
    pub reserved_for_expansion: [u8; 20],
    pub version_valid_for: u32,
    pub sqlite_version_number: u32,
}

/// The four bytes of `s` at `at`, as a big-endian number.
pub open spec fn be_u32_at(s: Seq<u8>, at: int) -> nat {
    be_uint(s.subrange(at, at + 4))
}

/// Why the bytes `s` are no database header, if they are none: the length
/// is checked first, then the text encoding.
pub open spec fn header_failure(s: Seq<u8>) -> Option<FormatError> {
    if s.len() != 100 {
        Some(FormatError::WrongHeaderSize)
    } else if text_encoding_of(be_u32_at(s, 56) as u32) is Err {
        Some(FormatError::UnknownTextEncoding)
    } else {
        None
    }
}

/// Whether `h` holds the fields of the header bytes `s`, each taken from its
/// fixed place. The page size is little-endian; every other number is big-endian.
pub open spec fn holds_header(h: DatabaseHeader, s: Seq<u8>) -> bool {
    &&& h.signature@ == s.subrange(0, 16)
    &&& h.page_size == le_uint(s.subrange(16, 18))
    &&& h.file_format_write_version == s[18]
    &&& h.file_format_read_version == s[19]
    &&& h.reserved_space == s[20]
    &&& h.max_embedded_payload_fraction == s[21]
    &&& h.min_embedded_payload_fraction == s[22]
    &&& h.leaf_payload_fraction == s[23]
    &&& h.file_change_counter == be_u32_at(s, 24)
    &&& h.database_size_pages == be_u32_at(s, 28)
    &&& h.first_freelist_trunk_page == be_u32_at(s, 32)
    &&& h.freelist_pages == be_u32_at(s, 36)
    &&& h.schema_cookie == be_u32_at(s, 40)
    &&& h.schema_format_number == be_u32_at(s, 44)
    &&& h.default_page_cache_size == be_u32_at(s, 48)
    &&& h.page_number_of_largest_root_btree_page == be_u32_at(s, 52)
    &&& Ok::<_, FormatError>(h.text_encoding) == text_encoding_of(be_u32_at(s, 56) as u32)
    &&& h.user_version == be_u32_at(s, 60)
    &&& h.incremental_vacuum_mode == be_u32_at(s, 64)
    &&& h.application_id == be_u32_at(s, 68)
    &&& h.reserved_for_expansion@ == s.subrange(72, 92)
    &&& h.version_valid_for == be_u32_at(s, 92)
    &&& h.sqlite_version_number == be_u32_at(s, 96)
}

/// The page size in bytes that the stored value `raw` stands for.
pub open spec fn page_size_in_bytes(raw: u16) -> nat {
    if raw == 1 {
        65536
    } else {
        raw as nat
    }
}

/// Whether the stored value `raw` is a legal page size: a power of two from
/// 512 to 32768, or 1 for 65536.
pub open spec fn is_page_size(raw: u16) -> bool {
    raw == 1 || raw == 512 || raw == 1024 || raw == 2048 || raw == 4096 || raw == 8192 || raw == 16384
        || raw == 32768
}

impl DatabaseHeader {
    /// Decodes the database header from a buffer of exactly 100 bytes.
    pub fn read_from_buffer(file_buffer: &[u8]) -> (r: Result<DatabaseHeader, FormatError>)
        ensures
            match r {
                Ok(h) => header_failure(file_buffer@) is None && holds_header(h, file_buffer@),
                Err(e) => header_failure(file_buffer@) == Some(e),
            },
            file_buffer@.len() != 100 ==> r == Err::<DatabaseHeader, _>(FormatError::WrongHeaderSize),
    {
        if file_buffer.len() != HEADER_SIZE {
            return Err(FormatError::WrongHeaderSize);
        }
        let b = file_buffer;
        let text_encoding = match TextEncoding::try_from(read_be_u32(b, 56)) {
            Ok(t) => t,
            Err(e) => {
                return Err(e);
            },
        };
        let signature: [u8; 16] = [
            b[0], b[1], b[2], b[3], b[4], b[5], b[6], b[7],
            b[8], b[9], b[10], b[11], b[12], b[13], b[14], b[15],
        ];
        let reserved_for_expansion: [u8; 20] = [
            b[72], b[73], b[74], b[75], b[76], b[77], b[78], b[79], b[80], b[81],
            b[82], b[83], b[84], b[85], b[86], b[87], b[88], b[89], b[90], b[91],
        ];
        assert(signature@ =~= b@.subrange(0, 16));
        assert(reserved_for_expansion@ =~= b@.subrange(72, 92));
        Ok(
            DatabaseHeader {
                signature,
                page_size: read_le_u16(b, 16),
                file_format_write_version: b[18],
                file_format_read_version: b[19],
                reserved_space: b[20],
                max_embedded_payload_fraction: b[21],
                min_embedded_payload_fraction: b[22],
                leaf_payload_fraction: b[23],
                file_change_counter: read_be_u32(b, 24),
                database_size_pages: read_be_u32(b, 28),
                first_freelist_trunk_page: read_be_u32(b, 32),
                freelist_pages: read_be_u32(b, 36),
                schema_cookie: read_be_u32(b, 40),
                schema_format_number: read_be_u32(b, 44),
                default_page_cache_size: read_be_u32(b, 48),
                page_number_of_largest_root_btree_page: read_be_u32(b, 52),
                text_encoding,
                user_version: read_be_u32(b, 60),
                incremental_vacuum_mode: read_be_u32(b, 64),
                application_id: read_be_u32(b, 68),
                reserved_for_expansion,
                version_valid_for: read_be_u32(b, 92),
                sqlite_version_number: read_be_u32(b, 96),
            },
        )
    }

    /// Whether the header gives a legal page size. Decoding carries the stored
    /// value as it is; a reader asks this before it reads pages by it.
    pub fn has_valid_page_size(&self) -> (r: bool)
        ensures
            r == is_page_size(self.page_size),
            r ==> 512 <= page_size_in_bytes(self.page_size) <= 65536,
    {
        let p = self.page_size;
        p == 1 || p == 512 || p == 1024 || p == 2048 || p == 4096 || p == 8192 || p == 16384 || p == 32768
    }

    /// The size of a page in bytes: the stored value, where 1 stands for 65536.
    pub fn page_size_bytes(&self) -> (n: u32)
        ensures
            n == page_size_in_bytes(self.page_size),
    {
        if self.page_size == 1 {
            65536
        } else {
            self.page_size as u32
        }
    }
}

} // verus!

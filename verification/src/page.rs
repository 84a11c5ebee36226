//! B-tree pages: the page header, the cell pointer array, and the cells of a
//! table leaf.

use vstd::prelude::*;
use vstd::slice::slice_subrange;
use crate::endian::{be_uint, read_be_u16, read_be_u32};
use crate::error::FormatError;
use crate::record::{record_of, then_all, Record, RecordView};
use crate::text::TextEncoding;
use crate::varint::{lemma_varint_range, read_varint, varint_complete, varint_len, varint_value};

verus! {

/// The offset of the page header within the first page of a file, which
/// starts with the database header.
pub const FIRST_PAGE_HEADER_OFFSET: usize = 100;

/// The four kinds of b-tree page.
#[derive(Debug, Clone, Copy, PartialEq, Eq, Structural)]
pub enum BtreePageType {
    InteriorIndex,
    InteriorTable,
    LeafIndex,
    LeafTable,
}

/// The page type that the byte `value` stands for.
pub open spec fn page_type_of(value: u8) -> Result<BtreePageType, FormatError> {
    if value == 0x02 {
        Ok(BtreePageType::InteriorIndex)
    } else if value == 0x05 {
        Ok(BtreePageType::InteriorTable)
    } else if value == 0x0a {
        Ok(BtreePageType::LeafIndex)
    } else if value == 0x0d {
        Ok(BtreePageType::LeafTable)
    } else {
        Err(FormatError::UnknownPageType)
    }
}

impl BtreePageType {
    /// The page type that the byte `value` stands for.
    pub fn try_from(value: u8) -> (r: Result<BtreePageType, FormatError>)
        ensures
            r == page_type_of(value),
    {
        match value {
            0x02 => Ok(BtreePageType::InteriorIndex),
            0x05 => Ok(BtreePageType::InteriorTable),
            0x0a => Ok(BtreePageType::LeafIndex),
            0x0d => Ok(BtreePageType::LeafTable),
            _ => Err(FormatError::UnknownPageType),
        }
    }

    /// Whether pages of this type have children.
    pub open spec fn spec_is_interior(self) -> bool {
        self == BtreePageType::InteriorIndex || self == BtreePageType::InteriorTable
    }

    /// Whether pages of this type have children.
    pub fn is_interior(&self) -> (r: bool)
        ensures
            r == self.spec_is_interior(),
    {
        match self {
            BtreePageType::InteriorIndex => true,
            BtreePageType::InteriorTable => true,
            BtreePageType::LeafIndex => false,
            BtreePageType::LeafTable => false,
        }
    }
}

/// The header of a b-tree page.
#[derive(Debug, Clone, Copy, PartialEq, Eq, Structural)]
pub struct BtreePageHeader {
    pub page_type: BtreePageType,
    pub freeblock_idx: u16,
    pub cell_count: u16,
    pub cell_content_idx: u16,
    pub free_byte_count: u8,
    /// The rightmost child, which only interior pages have.
    pub rightmost_child_pointer: Option<u32>,
}

/// The two bytes of `s` at `at`, as a big-endian number.
pub open spec fn be_u16_at(s: Seq<u8>, at: int) -> nat {
    be_uint(s.subrange(at, at + 2))
}

/// The page header that starts at byte `off` of the page `s`. It has eight
/// bytes, and on an interior page four more for the rightmost child.
pub open spec fn page_header_at(s: Seq<u8>, off: int) -> Result<BtreePageHeader, FormatError> {
    if off + 8 > s.len() {
        Err(FormatError::TruncatedPage)
    } else {
        match page_type_of(s[off]) {
            Err(e) => Err(e),
            Ok(page_type) => if page_type.spec_is_interior() && off + 12 > s.len() {
                Err(FormatError::TruncatedPage)
            } else {
                Ok(
                    BtreePageHeader {
                        page_type,
                        freeblock_idx: be_u16_at(s, off + 1) as u16,
                        cell_count: be_u16_at(s, off + 3) as u16,
                        cell_content_idx: be_u16_at(s, off + 5) as u16,
                        free_byte_count: s[off + 7],
                        rightmost_child_pointer: if page_type.spec_is_interior() {
                            Some(be_uint(s.subrange(off + 8, off + 12)) as u32)
                        } else {
                            None
                        },
                    },
                )
            },
        }
    }
}

impl BtreePageHeader {
    /// The length of this header in bytes.
    pub open spec fn spec_size(self) -> nat {
        if self.page_type.spec_is_interior() {
            12
        } else {
            8
        }
    }

    /// The length of this header in bytes.
    pub fn size(&self) -> (n: usize)
        ensures
            n == self.spec_size(),
    {
        if self.page_type.is_interior() {
            12
        } else {
            8
        }
    }

    /// Decodes the page header of the first page of a file, where it follows
    /// the database header.
    pub fn new(buf: &[u8]) -> (r: Result<BtreePageHeader, FormatError>)
        ensures
            r == page_header_at(buf@, 100),
    {
        BtreePageHeader::at(buf, FIRST_PAGE_HEADER_OFFSET)
    }

    /// Decodes the page header that starts at byte `offset` of the page `buf`.
    pub fn at(buf: &[u8], offset: usize) -> (r: Result<BtreePageHeader, FormatError>)
        ensures
            r == page_header_at(buf@, offset as int),
    {
        let len: usize = buf.len();
        if offset > len || len - offset < 8 {
            return Err(FormatError::TruncatedPage);
        }
        let page_type = match BtreePageType::try_from(buf[offset]) {
            Ok(t) => t,
            Err(e) => {
                return Err(e);
            },
        };
        let rightmost_child_pointer = if page_type.is_interior() {
            if len - offset < 12 {
                return Err(FormatError::TruncatedPage);
            }
            Some(read_be_u32(buf, offset + 8))
        } else {
            None
        };
        Ok(
            BtreePageHeader {
                page_type,
                freeblock_idx: read_be_u16(buf, offset + 1),
                cell_count: read_be_u16(buf, offset + 3),
                cell_content_idx: read_be_u16(buf, offset + 5),
                free_byte_count: buf[offset + 7],
                rightmost_child_pointer,
            },
        )
    }
}

/// A cell of a table leaf page: one row.
#[derive(Debug, Clone, PartialEq, Eq)]
pub struct TableBtreeLeafCell {
    /// The length of the record in bytes.
    pub size: u64,
    pub row_id: u64,
    pub record: Record,
}

/// What a [`TableBtreeLeafCell`] holds.
pub struct CellView {
    pub size: u64,
    pub row_id: u64,
    pub record: RecordView,
}

impl View for TableBtreeLeafCell {
    type V = CellView;

    open spec fn view(&self) -> CellView {
        CellView { size: self.size, row_id: self.row_id, record: self.record@ }
    }
}

/// The cell at the front of `c`, where `c` reaches from the cell's first byte
/// to the end of its page: the record's length and the row id, both varints,
/// and then the record. A record that is longer than the rest of the page
/// continues on overflow pages and is not decoded.
pub open spec fn cell_of(c: Seq<u8>, text_encoding: TextEncoding) -> Result<CellView, FormatError> {
    if !varint_complete(c) {
        Err(FormatError::TruncatedPage)
    } else {
        let after_size = c.subrange(varint_len(c), c.len() as int);
        if !varint_complete(after_size) {
            Err(FormatError::TruncatedPage)
        } else {
            let start = varint_len(c) + varint_len(after_size);
            let size = varint_value(c);
            if start + size > c.len() {
                Err(FormatError::PayloadOverflow)
            } else {
                match record_of(c.subrange(start, start + size), text_encoding) {
                    Err(e) => Err(e),
                    Ok(record) => Ok(
                        CellView { size: size as u64, row_id: varint_value(after_size) as u64, record },
                    ),
                }
            }
        }
    }
}

impl TableBtreeLeafCell {
    /// Decodes the cell at the front of `buf`, where `buf` reaches from the
    /// cell's first byte to the end of its page.
    pub fn new(buf: &[u8], text_encoding: &TextEncoding) -> (r: Result<TableBtreeLeafCell, FormatError>)
        ensures
            match r {
                Ok(cell) => cell_of(buf@, *text_encoding) == Ok::<_, FormatError>(cell@),
                Err(e) => cell_of(buf@, *text_encoding) == Err::<CellView, _>(e),
            },
    {
        let len: usize = buf.len();
        assert(buf@.subrange(0, len as int) =~= buf@);
        let (size, size_len) = match read_varint(buf, 0, len) {
            Some(r) => r,
            None => {
                return Err(FormatError::TruncatedPage);
            },
        };
        let (row_id, id_len) = match read_varint(buf, size_len, len) {
            Some(r) => r,
            None => {
                return Err(FormatError::TruncatedPage);
            },
        };
        proof {
            lemma_varint_range(buf@);
            lemma_varint_range(buf@.subrange(size_len as int, len as int));
        }
        let idx: usize = size_len + id_len;
        if size > (len - idx) as u64 {
            return Err(FormatError::PayloadOverflow);
        }
        let payload = slice_subrange(buf, idx, idx + size as usize);
        match Record::new(payload, text_encoding) {
            Ok(record) => Ok(TableBtreeLeafCell { size, row_id, record }),
            Err(e) => Err(e),
        }
    }
}

/// A decoded table leaf page.
#[derive(Debug, Clone, PartialEq, Eq)]
pub struct BtreePage {
    pub header: BtreePageHeader,
    pub cells: Vec<TableBtreeLeafCell>,
}

/// What a [`BtreePage`] holds.
pub struct PageView {
    pub header: BtreePageHeader,
    pub cells: Seq<CellView>,
}

/// What each of the cells in `cells` holds.
pub open spec fn cells_view(cells: Seq<TableBtreeLeafCell>) -> Seq<CellView> {
    cells.map_values(|c: TableBtreeLeafCell| c@)
}

impl View for BtreePage {
    type V = PageView;

    open spec fn view(&self) -> PageView {
        PageView { header: self.header, cells: cells_view(self.cells@) }
    }
}

/// The offset of the page header within the page with the number
/// `page_number`: the first page of a file starts with the database header.
pub open spec fn page_header_offset(page_number: u32) -> int {
    if page_number == 1 {
        100
    } else {
        0
    }
}

/// The cell that the pointer at byte `at` of the page `s` refers to. The
/// pointer is an offset from the start of the page.
pub open spec fn cell_at_pointer(s: Seq<u8>, at: int, text_encoding: TextEncoding) -> Result<
    CellView,
    FormatError,
> {
    let pointer = be_u16_at(s, at) as int;
    if pointer > s.len() {
        Err(FormatError::TruncatedPage)
    } else {
        cell_of(s.subrange(pointer, s.len() as int), text_encoding)
    }
}

/// The cells that the pointers `i..count` of the pointer array at byte `base`
/// of the page `s` refer to, in the order of the array.
pub open spec fn cells_from(s: Seq<u8>, base: int, count: int, i: int, text_encoding: TextEncoding) -> Result<
    Seq<CellView>,
    FormatError,
>
    decreases count - i,
{
    if i < 0 || i >= count {
        Ok(Seq::empty())
    } else {
        match cell_at_pointer(s, base + 2 * i, text_encoding) {
            Err(e) => Err(e),
            Ok(cell) => then_all(seq![cell], cells_from(s, base, count, i + 1, text_encoding)),
        }
    }
}

/// The table leaf page that the bytes `s` encode, with its page header at
/// byte `off`. A page of another type is not decoded. The pointer array
/// follows the page header and has to lie within the page.
pub open spec fn page_of(s: Seq<u8>, off: int, text_encoding: TextEncoding) -> Result<PageView, FormatError> {
    match page_header_at(s, off) {
        Err(e) => Err(e),
        Ok(header) => if header.page_type != BtreePageType::LeafTable {
            Err(FormatError::UnsupportedPageType)
        } else if off + header.spec_size() + 2 * header.cell_count > s.len() {
            Err(FormatError::TruncatedPage)
        } else {
            match cells_from(s, off + header.spec_size(), header.cell_count as int, 0, text_encoding) {
                Err(e) => Err(e),
                Ok(cells) => Ok(PageView { header, cells }),
            }
        },
    }
}

/// Whether `r` is the outcome of decoding the page `s` whose page header is at byte `off`.
pub open spec fn decodes_page(s: Seq<u8>, off: int, text_encoding: TextEncoding, r: Result<BtreePage, FormatError>) -> bool {
    match r {
        Ok(page) => page_of(s, off, text_encoding) == Ok::<_, FormatError>(page@),
        Err(e) => page_of(s, off, text_encoding) == Err::<PageView, _>(e),
    }
}

impl BtreePage {
    /// Decodes the first page of a file as a table leaf page.
    pub fn new(buf: &[u8], text_encoding: &TextEncoding) -> (r: Result<BtreePage, FormatError>)
        ensures
            decodes_page(buf@, 100, *text_encoding, r),
    {
        BtreePage::at(buf, FIRST_PAGE_HEADER_OFFSET, text_encoding)
    }

    /// Decodes the page with the number `page_number` as a table leaf page.
    /// Pages are numbered from 1.
    pub fn decode(buf: &[u8], page_number: u32, text_encoding: &TextEncoding) -> (r: Result<
        BtreePage,
        FormatError,
    >)
        ensures
            decodes_page(buf@, page_header_offset(page_number), *text_encoding, r),
    {
        if page_number == 1 {
            BtreePage::at(buf, FIRST_PAGE_HEADER_OFFSET, text_encoding)
        } else {
            BtreePage::at(buf, 0, text_encoding)
        }
    }

    /// Decodes the page `buf`, whose page header is at byte `offset`, as a table leaf page.
    pub fn at(buf: &[u8], offset: usize, text_encoding: &TextEncoding) -> (r: Result<BtreePage, FormatError>)
        ensures
            decodes_page(buf@, offset as int, *text_encoding, r),
    {
        let header = match BtreePageHeader::at(buf, offset) {
            Ok(h) => h,
            Err(e) => {
                return Err(e);
            },
        };
        match header.page_type {
            BtreePageType::LeafTable => {},
            _ => {
                return Err(FormatError::UnsupportedPageType);
            },
        }
        let len: usize = buf.len();
        let count: usize = header.cell_count as usize;
        let base: usize = offset + header.size();
        if 2 * count > len - base {
            return Err(FormatError::TruncatedPage);
        }
        let ghost s = buf@;
        let mut cells: Vec<TableBtreeLeafCell> = Vec::new();
        let mut i: usize = 0;
        assert(cells_view(cells@) =~= Seq::<CellView>::empty());
        while i < count
            invariant
                s == buf@,
                len == s.len(),
                i <= count,
                count == header.cell_count,
                base == offset + header.spec_size(),
                base + 2 * count <= len,
                page_header_at(s, offset as int) == Ok::<_, FormatError>(header),
                header.page_type == BtreePageType::LeafTable,
                then_all(cells_view(cells@), cells_from(s, base as int, count as int, i as int, *text_encoding))
                    == cells_from(s, base as int, count as int, 0, *text_encoding),
            decreases count - i,
        {
            let pointer: usize = read_be_u16(buf, base + 2 * i) as usize;
            if pointer > len {
                return Err(FormatError::TruncatedPage);
            }
            let cell = match TableBtreeLeafCell::new(slice_subrange(buf, pointer, len), text_encoding) {
                Ok(c) => c,
                Err(e) => {
                    return Err(e);
                },
            };
            proof {
                let tail = cells_from(s, base as int, count as int, i + 1, *text_encoding);
                assert(cells_from(s, base as int, count as int, i as int, *text_encoding) == then_all(
                    seq![cell@],
                    tail,
                ));
                assert(cells_view(cells@.push(cell)) =~= cells_view(cells@).push(cell@));
                if let Ok(r) = tail {
                    assert(cells_view(cells@).push(cell@) + r =~= cells_view(cells@) + (seq![cell@] + r));
                }
            }
            cells.push(cell);
            i += 1;
        }
        assert(cells_view(cells@) + Seq::<CellView>::empty() =~= cells_view(cells@));
        Ok(BtreePage { header, cells })
    }
}

} // verus!

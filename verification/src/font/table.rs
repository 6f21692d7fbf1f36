//! The 'C2PA' table of a font, and what a font has in its place.

use vstd::prelude::*;

use crate::error::Error;

verus! {

/// The 'C2PA' table of a font.
#[derive(Clone, Debug, PartialEq, Eq)]
pub struct C2paTable {
    /// The reference to the active manifest.
    pub active_manifest_uri: Option<String>,
    /// The manifest store.
    pub manifest_store: Option<Vec<u8>>,
}

/// What a [`C2paTable`] holds.
#[verifier::ext_equal]
pub struct TableModel {
    pub active_manifest_uri: Option<Seq<char>>,
    pub manifest_store: Option<Seq<u8>>,
}

/// The text in an optional string.
pub open spec fn text_of(text: Option<String>) -> Option<Seq<char>> {
    match text {
        Some(text) => Some(text@),
        None => None,
    }
}

/// The bytes in an optional byte string.
pub open spec fn bytes_of(bytes: Option<Vec<u8>>) -> Option<Seq<u8>> {
    match bytes {
        Some(bytes) => Some(bytes@),
        None => None,
    }
}

impl View for C2paTable {
    type V = TableModel;

    open spec fn view(&self) -> TableModel {
        TableModel {
            active_manifest_uri: text_of(self.active_manifest_uri),
            manifest_store: bytes_of(self.manifest_store),
        }
    }
}

/// What comes of reading the 'C2PA' table of a font.
#[derive(Clone, Debug, PartialEq, Eq)]
pub enum FontTable {
    /// The data is not a font.
    NotAFont,
    /// The font has a 'C2PA' table that could not be read.
    Unreadable,
    /// The font has no 'C2PA' table.
    Absent,
    /// The font has this 'C2PA' table.
    Present(C2paTable),
}

/// What a [`FontTable`] stands for.
pub enum FontModel {
    NotAFont,
    Unreadable,
    Absent,
    Present(TableModel),
}

impl View for FontTable {
    type V = FontModel;

    open spec fn view(&self) -> FontModel {
        match *self {
            FontTable::NotAFont => FontModel::NotAFont,
            FontTable::Unreadable => FontModel::Unreadable,
            FontTable::Absent => FontModel::Absent,
            FontTable::Present(table) => FontModel::Present(table@),
        }
    }
}

/// A result, with what its table holds in place of the table.
pub open spec fn table_result(r: Result<C2paTable, Error>) -> Result<TableModel, Error> {
    match r {
        Ok(table) => Ok(table@),
        Err(err) => Err(err),
    }
}

/// A result, with its bytes in place of the vector that holds them.
pub open spec fn bytes_result(r: Result<Vec<u8>, Error>) -> Result<Seq<u8>, Error> {
    match r {
        Ok(bytes) => Ok(bytes@),
        Err(err) => Err(err),
    }
}

/// A result, with its text in place of the string that holds it.
pub open spec fn text_result<E>(r: Result<Option<String>, E>) -> Result<Option<Seq<char>>, E> {
    match r {
        Ok(text) => Ok(text_of(text)),
        Err(err) => Err(err),
    }
}

} // verus!

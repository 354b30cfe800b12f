//! Saddle-stitch imposition of PDF documents.

pub mod booklet;
pub mod document;
pub mod saddle_stitch;

use vstd::prelude::*;

verus! {

/// Why a document could not be laid out for saddle stitching.
#[derive(Debug, Clone, Copy, PartialEq, Eq, Structural)]
pub enum SaddleStitchError {
    /// The input could not be read as a PDF document.
    Load,
    /// The document has no pages.
    Empty,
    /// The size (`MediaBox`) of the first page could not be found.
    MissingMediaBox,
    /// A page carries a display rotation (`/Rotate`) that the spread layout
    /// cannot reproduce.
    Rotated,
    /// The decompressed content of a page exceeds `MAX_PAGE_CONTENT_BYTES`.
    ContentTooLarge,
    /// Writing the output document failed (the writer's `std::io::Error`).
    Save,
}

impl SaddleStitchError {
    /// The text shown to users for this error.
    pub open spec fn spec_message(self) -> Seq<char> {
        match self {
            SaddleStitchError::Load => "PDFとして読み込めませんでした"@,
            SaddleStitchError::Empty => "ページがありません"@,
            SaddleStitchError::MissingMediaBox => "ページサイズ(MediaBox)を取得できませんでした"@,
            SaddleStitchError::Rotated => "回転指定(/Rotate)のあるページには対応していません"@,
            SaddleStitchError::ContentTooLarge => "ページの内容が大きすぎます (展開後100MiBまで)"@,
            SaddleStitchError::Save => "PDFの書き出しに失敗しました"@,
        }
    }

    /// The text shown to users for this error.
    pub fn message(&self) -> (m: &'static str)
        ensures
            m@ == self.spec_message(),
    {
        match self {
            SaddleStitchError::Load => "PDFとして読み込めませんでした",
            SaddleStitchError::Empty => "ページがありません",
            SaddleStitchError::MissingMediaBox => "ページサイズ(MediaBox)を取得できませんでした",
            SaddleStitchError::Rotated => "回転指定(/Rotate)のあるページには対応していません",
            SaddleStitchError::ContentTooLarge => "ページの内容が大きすぎます (展開後100MiBまで)",
            SaddleStitchError::Save => "PDFの書き出しに失敗しました",
        }
    }
}

} // verus!

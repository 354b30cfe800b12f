use lopdf::content::{Content, Operation};
use lopdf::{Dictionary, Document, Object, Stream};
use saddle_stitcher::pdf::document::{
    check_rotation, finish_document, media_box_owner, open_document, page_content, page_rotation,
    PageRotation,
};
use saddle_stitcher::pdf::saddle_stitch::{
    new_page_index, padded_order, spread_layout, Direction, Spread,
};
use saddle_stitcher::pdf::booklet::{
    convert_prepared, prepare_conversion, read_pages, SpreadGeometry,
};
use saddle_stitcher::pdf::SaddleStitchError;

#[test]
fn four_pages_left_open() {
    assert_eq!(new_page_index(4, Direction::Left), vec![3, 0, 1, 2]);
}

#[test]
fn four_pages_right_open() {
    assert_eq!(new_page_index(4, Direction::Right), vec![0, 3, 2, 1]);
}

#[test]
fn non_multiple_of_four_pads_with_blanks() {
    let index = new_page_index(5, Direction::Left);
    assert_eq!(index.len(), 8);
    assert_eq!(index, vec![7, 0, 1, 6, 5, 2, 3, 4]);
}

#[test]
fn padded_order_marks_blank_pages_as_none() {
    let order = padded_order(5, Direction::Left);
    assert_eq!(
        order,
        vec![
            None,
            Some(0),
            Some(1),
            None,
            None,
            Some(2),
            Some(3),
            Some(4)
        ]
    );
}

#[test]
fn one_page_pads_to_a_whole_sheet() {
    assert_eq!(new_page_index(1, Direction::Left), vec![3, 0, 1, 2]);
    assert_eq!(
        padded_order(1, Direction::Left),
        vec![None, Some(0), None, None]
    );
}

#[test]
fn eight_pages_right_open() {
    assert_eq!(
        new_page_index(8, Direction::Right),
        vec![0, 7, 6, 1, 2, 5, 4, 3]
    );
}

#[test]
fn padded_length_is_next_multiple_of_four() {
    for pages in 1..=40usize {
        let len = new_page_index(pages, Direction::Left).len();
        assert_eq!(len % 4, 0);
        assert!(pages <= len && len < pages + 4);
    }
}

#[test]
fn every_page_is_printed_once() {
    for pages in 1..=33usize {
        for direction in [Direction::Left, Direction::Right] {
            let mut index = new_page_index(pages, direction);
            index.sort();
            let expected: Vec<usize> = (0..index.len()).collect();
            assert_eq!(index, expected);
        }
    }
}

#[test]
fn spread_halves_fold_together() {
    let index = new_page_index(12, Direction::Left);
    for pair in index.chunks(2) {
        assert_eq!(pair[0] + pair[1], 11);
    }
}

#[test]
fn right_opening_mirrors_left() {
    let left = new_page_index(16, Direction::Left);
    let right = new_page_index(16, Direction::Right);
    for (l, r) in left.chunks(2).zip(right.chunks(2)) {
        assert_eq!(l[0], r[1]);
        assert_eq!(l[1], r[0]);
    }
}

#[test]
fn each_real_page_fills_one_slot() {
    let order = padded_order(6, Direction::Right);
    for k in 0..6 {
        assert_eq!(order.iter().filter(|slot| **slot == Some(k)).count(), 1);
    }
    assert_eq!(order.iter().filter(|slot| slot.is_none()).count(), 2);
}

#[test]
fn spread_layout_pairs_the_padded_order() {
    let layout = spread_layout(5, Direction::Left).unwrap();
    assert_eq!(
        layout,
        vec![
            Spread { left: None, right: Some(0) },
            Spread { left: Some(1), right: None },
            Spread { left: None, right: Some(2) },
            Spread { left: Some(3), right: Some(4) },
        ]
    );
    assert_eq!(spread_layout(4, Direction::Left).unwrap().len(), 2);
    assert_eq!(spread_layout(1, Direction::Right).unwrap().len(), 2);
}

#[test]
fn spread_layout_of_no_pages_is_empty_error() {
    assert_eq!(spread_layout(0, Direction::Left), Err(SaddleStitchError::Empty));
}

#[test]
fn error_messages() {
    assert_eq!(SaddleStitchError::Load.message(), "PDFとして読み込めませんでした");
    assert_eq!(SaddleStitchError::Empty.message(), "ページがありません");
    assert_eq!(
        SaddleStitchError::MissingMediaBox.message(),
        "ページサイズ(MediaBox)を取得できませんでした"
    );
    assert_eq!(SaddleStitchError::Save.message(), "PDFの書き出しに失敗しました");
    assert_eq!(
        SaddleStitchError::Rotated.message(),
        "回転指定(/Rotate)のあるページには対応していません"
    );
    assert_eq!(
        SaddleStitchError::ContentTooLarge.message(),
        "ページの内容が大きすぎます (展開後100MiBまで)"
    );
}

#[test]
fn rotation_check() {
    assert_eq!(check_rotation(PageRotation::Absent), Ok(()));
    assert_eq!(check_rotation(PageRotation::Degrees(0)), Ok(()));
    assert_eq!(check_rotation(PageRotation::Degrees(360)), Ok(()));
    assert_eq!(check_rotation(PageRotation::Degrees(-720)), Ok(()));
    assert_eq!(
        check_rotation(PageRotation::Degrees(90)),
        Err(SaddleStitchError::Rotated)
    );
    assert_eq!(
        check_rotation(PageRotation::Degrees(-270)),
        Err(SaddleStitchError::Rotated)
    );
    assert_eq!(
        check_rotation(PageRotation::Unreadable),
        Err(SaddleStitchError::Rotated)
    );
}

/// A PDF of `pages` text-only A4 portrait pages.
fn sample_pdf(pages: usize) -> Vec<u8> {
    let mut doc = Document::with_version("1.5");
    let pages_id = doc.new_object_id();
    let mut kids = Vec::with_capacity(pages);
    for n in 0..pages {
        let content = Content {
            operations: vec![
                Operation::new("BT", vec![]),
                Operation::new("Tf", vec!["F1".into(), 24.into()]),
                Operation::new("Td", vec![72.into(), 700.into()]),
                Operation::new("Tj", vec![Object::string_literal(format!("page {n}"))]),
                Operation::new("ET", vec![]),
            ],
        }
        .encode()
        .unwrap();
        let content_id = doc.add_object(Stream::new(Dictionary::new(), content));
        let mut page = Dictionary::new();
        page.set("Type", "Page");
        page.set("Parent", pages_id);
        page.set(
            "MediaBox",
            vec![0.into(), 0.into(), 595.into(), 842.into()],
        );
        page.set("Contents", content_id);
        let page_id = doc.add_object(page);
        kids.push(Object::Reference(page_id));
    }
    let mut pages_dict = Dictionary::new();
    pages_dict.set("Type", "Pages");
    pages_dict.set("Count", pages as i64);
    pages_dict.set("Kids", kids);
    doc.objects.insert(pages_id, Object::Dictionary(pages_dict));
    let mut catalog = Dictionary::new();
    catalog.set("Type", "Catalog");
    catalog.set("Pages", pages_id);
    let catalog_id = doc.add_object(catalog);
    doc.trailer.set("Root", catalog_id);
    let mut buffer = Vec::new();
    doc.save_to(&mut buffer).unwrap();
    buffer
}

#[test]
fn open_document_rejects_bytes_that_are_not_a_pdf() {
    assert!(matches!(
        open_document(b"not a pdf"),
        Err(SaddleStitchError::Load)
    ));
}

#[test]
fn open_document_lists_the_pages_in_order() {
    let loaded = open_document(&sample_pdf(3)).unwrap();
    assert_eq!(loaded.page_ids.len(), 3);
    let first = page_content(&loaded.document, loaded.page_ids[0]).unwrap();
    let text = String::from_utf8_lossy(&first).to_string();
    assert!(text.contains("page 0"), "{text}");
    let last = page_content(&loaded.document, loaded.page_ids[2]).unwrap();
    assert!(String::from_utf8_lossy(&last).contains("page 2"));
}

#[test]
fn finish_document_writes_a_loadable_pdf() {
    let mut loaded = open_document(&sample_pdf(2)).unwrap();
    let bytes = finish_document(&mut loaded.document).unwrap();
    assert!(bytes.starts_with(b"%PDF"));
    let reopened = open_document(&bytes).unwrap();
    assert_eq!(reopened.page_ids.len(), 2);
}

/// A page tree of one `Pages` node and one page, with the given `/Rotate`
/// entries on each; returns the document and the page's identifier.
fn rotated_tree(on_pages: Option<Object>, on_page: Option<Object>) -> (Document, (u32, u16)) {
    let mut doc = Document::with_version("1.5");
    let pages_id = doc.new_object_id();
    let mut page = Dictionary::new();
    page.set("Type", "Page");
    page.set("Parent", pages_id);
    if let Some(rotate) = on_page {
        page.set("Rotate", rotate);
    }
    let page_id = doc.add_object(page);
    let mut pages = Dictionary::new();
    pages.set("Type", "Pages");
    pages.set("Count", 1);
    pages.set("Kids", vec![Object::Reference(page_id)]);
    if let Some(rotate) = on_pages {
        pages.set("Rotate", rotate);
    }
    doc.objects.insert(pages_id, Object::Dictionary(pages));
    (doc, page_id)
}

#[test]
fn page_rotation_reads_the_page_and_its_ancestors() {
    let (doc, page) = rotated_tree(None, None);
    assert_eq!(page_rotation(&doc, page), PageRotation::Absent);
    let (doc, page) = rotated_tree(None, Some(Object::Integer(90)));
    assert_eq!(page_rotation(&doc, page), PageRotation::Degrees(90));
    let (doc, page) = rotated_tree(Some(Object::Integer(180)), None);
    assert_eq!(page_rotation(&doc, page), PageRotation::Degrees(180));
    let (doc, page) = rotated_tree(Some(Object::Integer(180)), Some(Object::Integer(0)));
    assert_eq!(page_rotation(&doc, page), PageRotation::Degrees(0));
    let (doc, page) = rotated_tree(None, Some(Object::Real(90.0)));
    assert_eq!(page_rotation(&doc, page), PageRotation::Unreadable);
    assert_eq!(page_rotation(&doc, (999, 0)), PageRotation::Absent);
}

#[test]
fn page_rotation_stops_on_a_cycle_of_parents() {
    let mut doc = Document::with_version("1.5");
    let a = doc.new_object_id();
    let b = doc.new_object_id();
    let mut node_a = Dictionary::new();
    node_a.set("Parent", b);
    let mut node_b = Dictionary::new();
    node_b.set("Parent", a);
    doc.objects.insert(a, Object::Dictionary(node_a));
    doc.objects.insert(b, Object::Dictionary(node_b));
    assert_eq!(page_rotation(&doc, a), PageRotation::Absent);
}

/// A page tree of one `Pages` node and one page, with the given `/MediaBox`
/// entries on each; returns the document, the `Pages` node and the page.
fn boxed_tree(
    on_pages: Option<Object>,
    on_page: Option<Object>,
) -> (Document, (u32, u16), (u32, u16)) {
    let mut doc = Document::with_version("1.5");
    let pages_id = doc.new_object_id();
    let mut page = Dictionary::new();
    page.set("Type", "Page");
    page.set("Parent", pages_id);
    if let Some(media_box) = on_page {
        page.set("MediaBox", media_box);
    }
    let page_id = doc.add_object(page);
    let mut pages = Dictionary::new();
    pages.set("Type", "Pages");
    pages.set("Kids", vec![Object::Reference(page_id)]);
    if let Some(media_box) = on_pages {
        pages.set("MediaBox", media_box);
    }
    doc.objects.insert(pages_id, Object::Dictionary(pages));
    (doc, pages_id, page_id)
}

fn a4() -> Object {
    Object::Array(vec![0.into(), 0.into(), 595.into(), Object::Real(841.89)])
}

#[test]
fn media_box_owner_is_the_page_or_its_nearest_ancestor() {
    let (doc, _, page) = boxed_tree(Some(a4()), Some(a4()));
    assert_eq!(media_box_owner(&doc, page), Ok(page));
    let (doc, pages, page) = boxed_tree(Some(a4()), None);
    assert_eq!(media_box_owner(&doc, page), Ok(pages));
    let three = Object::Array(vec![0.into(), 0.into(), "A4".into(), 595.into()]);
    let (doc, pages, page) = boxed_tree(Some(a4()), Some(three));
    assert_eq!(media_box_owner(&doc, page), Ok(pages));
    let padded = Object::Array(vec![0.into(), "x".into(), 0.into(), 595.into(), 842.into()]);
    let (doc, _, page) = boxed_tree(None, Some(padded));
    assert_eq!(media_box_owner(&doc, page), Ok(page));
}

#[test]
fn media_box_owner_reports_a_missing_size() {
    let (doc, _, page) = boxed_tree(None, None);
    assert_eq!(media_box_owner(&doc, page), Err(SaddleStitchError::MissingMediaBox));
    let (doc, _, page) = boxed_tree(None, Some(Object::Integer(595)));
    assert_eq!(media_box_owner(&doc, page), Err(SaddleStitchError::MissingMediaBox));
    assert_eq!(
        media_box_owner(&doc, (999, 0)),
        Err(SaddleStitchError::MissingMediaBox)
    );
    let mut cyclic = Document::with_version("1.5");
    let a = cyclic.new_object_id();
    let b = cyclic.new_object_id();
    let mut node_a = Dictionary::new();
    node_a.set("Parent", b);
    let mut node_b = Dictionary::new();
    node_b.set("Parent", a);
    cyclic.objects.insert(a, Object::Dictionary(node_a));
    cyclic.objects.insert(b, Object::Dictionary(node_b));
    assert_eq!(
        media_box_owner(&cyclic, a),
        Err(SaddleStitchError::MissingMediaBox)
    );
}

/// The conversion as the program runs it, with the page geometry of an
/// upright `[0, 0, w, h]` page box computed here.
fn convert(input: &[u8], direction: Direction) -> Result<Vec<u8>, SaddleStitchError> {
    let prepared = prepare_conversion(input, direction)?;
    let media_box: Vec<f32> = prepared
        .document
        .get_dictionary(prepared.media_box_owner)
        .unwrap()
        .get(b"MediaBox")
        .unwrap()
        .as_array()
        .unwrap()
        .iter()
        .filter_map(|obj| obj.as_float().ok())
        .collect();
    let width = media_box[2] - media_box[0];
    let height = media_box[3] - media_box[1];
    let geometry = SpreadGeometry {
        bbox: media_box.iter().map(|&v| v.into()).collect(),
        spread_media_box: vec![0.into(), 0.into(), (width * 2.0).into(), height.into()],
        origin: 0.0f32.into(),
        right_offset: width.into(),
    };
    convert_prepared(prepared, &geometry).expect("object numbers left")
}

fn page_media_box(doc: &Document, page_id: (u32, u16)) -> Vec<f32> {
    doc.get_dictionary(page_id)
        .unwrap()
        .get(b"MediaBox")
        .unwrap()
        .as_array()
        .unwrap()
        .iter()
        .map(|obj| obj.as_float().unwrap())
        .collect()
}

#[test]
fn end_to_end_produces_a_loadable_pdf_with_expected_page_count() {
    let input = sample_pdf(4);

    let output = convert(&input, Direction::Left).expect("saddle_stitch should succeed");

    let out_doc = Document::load_mem(&output).expect("output should be a valid PDF");
    let out_pages = out_doc.get_pages();
    assert_eq!(out_pages.len(), 2);
    for (_, page_id) in out_pages {
        assert_eq!(page_media_box(&out_doc, page_id), vec![0.0, 0.0, 595.0 * 2.0, 842.0]);
    }
}

#[test]
fn end_to_end_non_multiple_of_four_pads_with_blank_spread() {
    let input = sample_pdf(5);

    let output = convert(&input, Direction::Left).expect("saddle_stitch should succeed");

    let out_doc = Document::load_mem(&output).expect("output should be a valid PDF");
    assert_eq!(out_doc.get_pages().len(), 4);
}

#[test]
fn spreads_draw_the_pages_in_booklet_order() {
    let output = convert(&sample_pdf(4), Direction::Left).unwrap();
    let out_doc = Document::load_mem(&output).unwrap();
    let mut drawn = Vec::new();
    for (_, page_id) in out_doc.get_pages() {
        let content = out_doc.get_page_content(page_id);
        let text = String::from_utf8_lossy(&content).to_string();
        assert_eq!(text.matches(" Do").count(), 2, "{text}");
        let resources = out_doc
            .get_dictionary(page_id)
            .unwrap()
            .get(b"Resources")
            .unwrap()
            .as_dict()
            .unwrap();
        let xobjects = resources.get(b"XObject").unwrap().as_dict().unwrap();
        for name in text.split_whitespace().filter(|w| w.starts_with("/X")) {
            let form_id = xobjects.get(&name.as_bytes()[1..]).unwrap().as_reference().unwrap();
            let form = out_doc.get_object(form_id).unwrap().as_stream().unwrap();
            let body = form.decompressed_content().unwrap_or_else(|_| form.content.clone());
            let body = String::from_utf8_lossy(&body).to_string();
            let page = (0..4).find(|n| body.contains(&format!("page {n}"))).unwrap();
            drawn.push(page);
        }
    }
    // Four pages opening to the left: [3, 0] on the first sheet side, [1, 2] on the second.
    assert_eq!(drawn, vec![3, 0, 1, 2]);
}

#[test]
fn conversion_errors_come_in_order() {
    assert_eq!(convert(b"not a pdf", Direction::Left), Err(SaddleStitchError::Load));
    let (doc, page) = rotated_tree(None, Some(Object::Integer(90)));
    assert_eq!(
        read_pages(&doc, &vec![page]).err(),
        Some(SaddleStitchError::Rotated)
    );
    let (doc, page) = rotated_tree(None, Some(Object::Integer(360)));
    assert!(read_pages(&doc, &vec![page]).is_ok());
}

use pixterm::canvas::Canvas;
use pixterm::file::{
    canvas_from_save_data, decode_ptd, encode_ptd, export_png_bytes, import_png_bytes, is_ptd_extension,
    png_export_fits, png_rgba_image, save_data_from_canvas, uses_gzip, FileError, SaveData,
};
use serde_json::Value;

/// The compact JSON text of a saved grid (the layout that `.ptd` files hold).
fn grid_json(d: &SaveData) -> Vec<u8> {
    let mut rows = Vec::new();
    for row in &d.pixels {
        let mut cells = Vec::new();
        for cell in row {
            cells.push(match cell {
                Some(c) => Value::Array(c.iter().map(|b| Value::from(*b)).collect()),
                None => Value::Null,
            });
        }
        rows.push(Value::Array(cells));
    }
    let mut obj = serde_json::Map::new();
    obj.insert("version".to_string(), Value::String(d.version.clone()));
    obj.insert("width".to_string(), Value::from(d.width));
    obj.insert("height".to_string(), Value::from(d.height));
    obj.insert("pixels".to_string(), Value::Array(rows));
    serde_json::to_vec(&Value::Object(obj)).unwrap()
}

/// The saved grid read from its JSON text.
fn grid_from_json(bytes: &[u8]) -> SaveData {
    let v: Value = serde_json::from_slice(bytes).unwrap();
    let pixels = v["pixels"]
        .as_array()
        .unwrap()
        .iter()
        .map(|row| {
            row.as_array()
                .unwrap()
                .iter()
                .map(|cell| {
                    cell.as_array().map(|c| {
                        [
                            c[0].as_u64().unwrap() as u8,
                            c[1].as_u64().unwrap() as u8,
                            c[2].as_u64().unwrap() as u8,
                        ]
                    })
                })
                .collect()
        })
        .collect();
    SaveData {
        version: v["version"].as_str().unwrap().to_string(),
        width: v["width"].as_u64().unwrap() as u16,
        height: v["height"].as_u64().unwrap() as u16,
        pixels,
    }
}

#[test]
fn test_save_and_load_json() {
    let mut canvas = Canvas::new();
    canvas.set_pixel(0, 0, Some((255, 0, 0)));
    canvas.set_pixel(1, 1, Some((0, 255, 0)));
    canvas.set_pixel(3, 3, Some((0, 0, 255)));
    let data = save_data_from_canvas(&canvas);
    let loaded = canvas_from_save_data(&data);
    assert_eq!(loaded.get_pixel(0, 0), Some((255, 0, 0)));
    assert_eq!(loaded.get_pixel(1, 1), Some((0, 255, 0)));
    assert_eq!(loaded.get_pixel(3, 3), Some((0, 0, 255)));
    assert_eq!(loaded.get_pixel(2, 2), None);
}

#[test]
fn test_save_and_load_ptd() {
    let mut canvas = Canvas::new();
    canvas.set_pixel(0, 0, Some((255, 0, 0)));
    canvas.set_pixel(5, 5, Some((0, 255, 0)));
    canvas.set_pixel(10, 10, Some((0, 0, 255)));
    let text = grid_json(&save_data_from_canvas(&canvas));
    let packed = encode_ptd(&text).unwrap();
    assert!(packed.len() > 0);
    assert_eq!(&packed[0..2], &[0x1f, 0x8b]);
    let unpacked = decode_ptd(&packed).unwrap();
    assert_eq!(unpacked, text);
    let loaded = canvas_from_save_data(&grid_from_json(&unpacked));
    assert_eq!(loaded.get_pixel(0, 0), Some((255, 0, 0)));
    assert_eq!(loaded.get_pixel(5, 5), Some((0, 255, 0)));
    assert_eq!(loaded.get_pixel(10, 10), Some((0, 0, 255)));
    assert_eq!(loaded.get_pixel(3, 3), None);
}

#[test]
fn test_save_empty_canvas() {
    let canvas = Canvas::new();
    let data = save_data_from_canvas(&canvas);
    assert_eq!(data.version, "1.0.0");
    assert_eq!((data.width, data.height), (0, 0));
    assert!(data.pixels.is_empty());
    let loaded = canvas_from_save_data(&data);
    assert!(loaded.is_empty());
}

#[test]
fn test_save_empty_canvas_ptd() {
    let canvas = Canvas::new();
    let data = save_data_from_canvas(&canvas);
    let text = format!(
        "{{\"version\":\"{}\",\"width\":{},\"height\":{},\"pixels\":[]}}",
        data.version, data.width, data.height
    );
    let packed = encode_ptd(text.as_bytes()).unwrap();
    let unpacked = decode_ptd(&packed).unwrap();
    assert_eq!(unpacked, text.as_bytes().to_vec());
    let loaded = canvas_from_save_data(&data);
    assert!(loaded.is_empty());
}

#[test]
fn saved_grid_is_the_bounding_box() {
    let mut canvas = Canvas::new();
    canvas.set_pixel(10, 5, Some((1, 2, 3)));
    canvas.set_pixel(12, 6, Some((4, 5, 6)));
    let data = save_data_from_canvas(&canvas);
    assert_eq!((data.width, data.height), (3, 2));
    assert_eq!(data.pixels[0], vec![Some([1, 2, 3]), None, None]);
    assert_eq!(data.pixels[1], vec![None, None, Some([4, 5, 6])]);
    let loaded = canvas_from_save_data(&data);
    assert_eq!(loaded.get_pixel(0, 0), Some((1, 2, 3)));
    assert_eq!(loaded.get_pixel(2, 1), Some((4, 5, 6)));
    assert_eq!(loaded.get_pixel(10, 5), None);
}

#[test]
fn decode_ptd_rejects_garbage() {
    assert!(matches!(decode_ptd(b"not gzip"), Err(FileError::Io(_))));
}

#[test]
fn ptd_extension_detection() {
    assert!(is_ptd_extension("ptd"));
    assert!(is_ptd_extension("PtD"));
    assert!(!is_ptd_extension("json"));
    assert!(uses_gzip("art.ptd"));
    assert!(uses_gzip("dir/art.PTD"));
    assert!(!uses_gzip("art.json"));
    assert!(!uses_gzip("ptd"));
    assert!(!uses_gzip(".ptd"));
    assert!(uses_gzip("a.PTD"));
    assert!(uses_gzip("...ptd"));
    assert!(!uses_gzip("x.ptd.json"));
    assert!(!uses_gzip("a."));
    assert!(!uses_gzip(".."));
    assert!(!uses_gzip(""));
    assert!(uses_gzip("art/x.ptd"));
    assert!(uses_gzip("./art//x.PTD/"));
    assert!(!uses_gzip("art.ptd/x.json"));
    assert!(!uses_gzip("x.ptd/.."));
    assert!(uses_gzip("x.ptd/."));
}

#[test]
fn ptd_round_trip_of_any_bytes() {
    for data in [&b""[..], &b"{}"[..], &[0u8, 255, 7, 7, 7][..]] {
        let packed = encode_ptd(data).unwrap();
        assert_eq!(decode_ptd(&packed).unwrap(), data);
    }
}

#[test]
fn test_load_nonexistent_file() {
    // Reading the file is the caller's part; the library is handed the
    // failure and must report it without touching the canvas.
    // An empty read (what a missing file leaves) is no `.ptd` stream.
    assert!(decode_ptd(&[]).is_err());
    let path = "nonexistent_file_xyz.json";
    let mut app = pixterm::app::App::new();
    app.paint_pixel(1, 1, Some((1, 2, 3)));
    app.load_canvas(path, Err("No such file or directory (os error 2)".to_string()));
    assert_eq!(app.status_message, "加载失败: No such file or directory (os error 2)");
    assert_eq!(app.canvas.get_pixel(1, 1), Some((1, 2, 3)));
    assert!(app.history.can_undo());
}

#[test]
fn test_export_import_png() {
    let mut canvas = Canvas::new();
    canvas.set_pixel(0, 0, Some((255, 0, 0)));
    canvas.set_pixel(1, 0, Some((0, 255, 0)));
    canvas.set_pixel(0, 1, Some((0, 0, 255)));
    let bytes = export_png_bytes(&canvas).ok().unwrap();
    assert!(bytes.len() > 0);
    let imported = import_png_bytes(&bytes).ok().unwrap();
    assert_eq!(imported.get_pixel(0, 0), Some((255, 0, 0)));
    assert_eq!(imported.get_pixel(1, 0), Some((0, 255, 0)));
    assert_eq!(imported.get_pixel(0, 1), Some((0, 0, 255)));
    assert_eq!(imported.get_pixel(1, 1), None);
}

#[test]
fn test_export_empty_canvas_png() {
    let canvas = Canvas::new();
    let (w, h, data) = png_rgba_image(&canvas);
    assert_eq!((w, h), (1, 1));
    assert_eq!(data, vec![0, 0, 0, 0]);
    let bytes = export_png_bytes(&canvas).ok().unwrap();
    let imported = import_png_bytes(&bytes).ok().unwrap();
    assert!(imported.is_empty());
}

#[test]
fn png_buffer_is_row_major_rgba() {
    let mut canvas = Canvas::new();
    canvas.set_pixel(4, 4, Some((1, 2, 3)));
    canvas.set_pixel(5, 5, Some((4, 5, 6)));
    let (w, h, data) = png_rgba_image(&canvas);
    assert_eq!((w, h), (2, 2));
    assert_eq!(
        data,
        vec![1, 2, 3, 255, 0, 0, 0, 0, 0, 0, 0, 0, 4, 5, 6, 255]
    );
}

#[test]
fn png_export_size_limits() {
    let mut canvas = Canvas::new();
    assert!(png_export_fits(&canvas));
    canvas.set_pixel(0, 0, Some((1, 1, 1)));
    canvas.set_pixel(65535, 0, Some((1, 1, 1)));
    assert!(!png_export_fits(&canvas));
}

#[test]
fn import_rejects_non_png() {
    assert!(matches!(import_png_bytes(b"nope"), Err(FileError::PngDecode(_))));
}

#[test]
fn png_round_trip_moves_the_box_to_the_origin() {
    let mut canvas = Canvas::new();
    canvas.set_pixel(10, 20, Some((1, 2, 3)));
    canvas.set_pixel(12, 21, Some((200, 100, 0)));
    let bytes = export_png_bytes(&canvas).unwrap();
    let back = import_png_bytes(&bytes).unwrap();
    assert_eq!(back.get_pixel(0, 0), Some((1, 2, 3)));
    assert_eq!(back.get_pixel(2, 1), Some((200, 100, 0)));
    assert_eq!(back.get_pixel(1, 0), None);
    assert_eq!(back.bounding_box(), Some((0, 0, 2, 1)));
}

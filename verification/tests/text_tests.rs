use hex_world::bezier_surface::{quad_point_indices, surface_indices};
use hex_world::rendering::text::{format_to_exact_length, text_vertex_range, RenderedText};
use hex_world::util::read_shader;

#[test]
fn format_pads_with_zeros() {
    assert_eq!(format_to_exact_length(42, 5), "00042");
    assert_eq!(format_to_exact_length(0, 3), "000");
    assert_eq!(format_to_exact_length(7, 1), "7");
}

#[test]
fn format_truncates_to_leading_digits() {
    assert_eq!(format_to_exact_length(123456, 3), "123");
    assert_eq!(format_to_exact_length(u32::MAX, 4), "4294");
    assert_eq!(format_to_exact_length(99, 0), "");
}

#[test]
fn format_has_exact_length_and_keeps_value() {
    for n in [0u32, 5, 17, 999, 12345, 4000000000] {
        for len in 0..12usize {
            let s = format_to_exact_length(n, len);
            assert_eq!(s.len(), len);
            assert!(s.chars().all(|c| c.is_ascii_digit()));
            if n.to_string().len() <= len {
                assert_eq!(s.parse::<u64>().unwrap(), n as u64);
            }
        }
    }
    assert_eq!(format_to_exact_length(4000000000, 10), "4000000000");
}

#[test]
fn rendered_text_changes_only_its_text() {
    let mut t = RenderedText::new(String::from("00000fps"));
    assert_eq!(t.text, "00000fps");
    assert_eq!((t.vertex_start, t.vertex_end), (0, 0));
    t.vertex_start = 3;
    t.vertex_end = 11;
    t.change_text(String::from("00060fps"));
    assert_eq!(t.text, "00060fps");
    assert_eq!((t.vertex_start, t.vertex_end), (3, 11));
}

#[test]
fn read_shader_decodes_utf8() {
    let src = b"#version 330\nvoid main() { }\n";
    assert_eq!(read_shader(src), "#version 330\nvoid main() { }\n");
    assert_eq!(read_shader("gr\u{e4}s".as_bytes()), "gr\u{e4}s");
    assert_eq!(read_shader(b""), "");
}

#[test]
fn surface_indices_single_patch() {
    let expected: Vec<u16> = (0..16).collect();
    assert_eq!(surface_indices(1, 1), expected);
    assert_eq!(surface_indices(0, 3), Vec::<u16>::new());
}

#[test]
fn surface_indices_two_patches() {
    let idx = surface_indices(2, 1);
    assert_eq!(idx.len(), 32);
    assert_eq!(&idx[0..8], &[0, 1, 2, 3, 7, 8, 9, 10]);
    assert_eq!(&idx[16..24], &[3, 4, 5, 6, 10, 11, 12, 13]);
    assert_eq!(idx[31], 27);
    let idx = surface_indices(2, 2);
    assert_eq!(idx.len(), 64);
    assert!(idx.iter().all(|&i| i < 49));
    assert_eq!(idx[48], 24);
}

#[test]
fn quad_point_indices_checks_bounds() {
    let all: Vec<usize> = (0..16).collect();
    assert_eq!(quad_point_indices(1, 0, 0, 16), Some(all));
    assert_eq!(quad_point_indices(1, 0, 0, 15), None);
    let v = quad_point_indices(2, 1, 1, 49).unwrap();
    assert_eq!(v[0], 24);
    assert_eq!(v[15], 48);
    assert_eq!(quad_point_indices(2, 1, 1, 48), None);
}

#[test]
fn text_vertex_ranges_are_adjacent() {
    assert_eq!(text_vertex_range(0, 8), (0, 8));
    let (s1, e1) = text_vertex_range(5, 3);
    let (s2, e2) = text_vertex_range(e1, 4);
    assert_eq!((s1, e1, s2, e2), (5, 8, 8, 12));
    assert_eq!(text_vertex_range(7, 0), (7, 7));
}

#[test]
fn quad_point_indices_stop_at_first_index_beyond_points() {
    // the third row's index would overflow, but the second row's already lies beyond the points
    let huge = usize::MAX / 4;
    assert_eq!(quad_point_indices(huge, 0, 0, 5), None);
}

#[test]
fn surface_indices_closed_form() {
    let (nx, nz) = (3usize, 2usize);
    let idx = surface_indices(nx, nz);
    for qz in 0..nz {
        for qx in 0..nx {
            for a in 0..4 {
                for b in 0..4 {
                    let k = 16 * (qz * nx + qx) + 4 * a + b;
                    assert_eq!(idx[k] as usize, (3 * qz + a) * (3 * nx + 1) + 3 * qx + b);
                }
            }
        }
    }
}

use steam_icon_recover::resolutions::{get_resolutions, resolution_of_entry, resolution_of_segment, ResolutionIndex, ScannedEntry};
use steam_icon_recover::unpack::{entry_targets, has_short_palette, unpack_entries, EntryOutcome, IconContainer, UnpackError};

fn container_bytes(sizes: &[u32]) -> Vec<u8> {
    let mut dir = ico::IconDir::new(ico::ResourceType::Icon);
    for &s in sizes {
        let img = ico::IconImage::from_rgba_data(s, s, vec![200u8; (s * s * 4) as usize]);
        dir.add_entry(ico::IconDirEntry::encode(&img).unwrap());
    }
    let mut out = Vec::new();
    dir.write(&mut out).unwrap();
    out
}

fn entry(segments: &[&str]) -> ScannedEntry {
    ScannedEntry {
        segments: segments.iter().map(|s| s.to_string()).collect(),
        path: segments.join("/"),
    }
}

#[test]
fn widths_and_missing_target() {
    let bytes = container_bytes(&[16, 32, 256]);
    let c = IconContainer::read(&bytes).unwrap();
    assert_eq!(c.widths(), vec![16, 32, 256]);
    let mut index = ResolutionIndex::new();
    index.insert(16, "A".to_string());
    index.insert(32, "B".to_string());
    let targets = entry_targets(&c.widths(), &index, "steam_icon_1");
    assert_eq!(
        targets,
        vec![
            Ok("A/steam_icon_1".to_string()),
            Ok("B/steam_icon_1".to_string()),
            Err(UnpackError::NoResolutionTarget(256)),
        ]
    );
    let outcomes = unpack_entries(&c, &targets, &vec![false, false, false]);
    let written: Vec<&String> = outcomes
        .iter()
        .filter_map(|o| match o {
            EntryOutcome::Write(p, b) => {
                assert!(b.starts_with(&[0x89, b'P', b'N', b'G']));
                Some(p)
            }
            _ => None,
        })
        .collect();
    assert_eq!(written, vec!["A/steam_icon_1", "B/steam_icon_1"]);
    let failures: Vec<&EntryOutcome> =
        outcomes.iter().filter(|o| matches!(o, EntryOutcome::Failed(_))).collect();
    assert_eq!(failures, vec![&EntryOutcome::Failed(UnpackError::NoResolutionTarget(256))]);
}

#[test]
fn existing_output_is_skipped() {
    let bytes = container_bytes(&[16, 32]);
    let c = IconContainer::read(&bytes).unwrap();
    let mut index = ResolutionIndex::new();
    index.insert(16, "A/".to_string());
    index.insert(32, "B".to_string());
    let targets = entry_targets(&c.widths(), &index, "n");
    let outcomes = unpack_entries(&c, &targets, &vec![true, false]);
    assert_eq!(outcomes[0], EntryOutcome::Skipped("A/n".to_string()));
    assert!(matches!(&outcomes[1], EntryOutcome::Write(p, _) if p == "B/n"));
}

#[test]
fn rendered_png_decodes_to_entry_size() {
    let bytes = container_bytes(&[32]);
    let c = IconContainer::read(&bytes).unwrap();
    let png = c.render(0).unwrap();
    let img = ico::IconImage::read_png(std::io::Cursor::new(png)).unwrap();
    assert_eq!((img.width(), img.height()), (32, 32));
}

#[test]
fn garbage_is_not_a_container() {
    let r = IconContainer::read(&b"not an icon".to_vec());
    assert!(matches!(r, Err(UnpackError::ContainerFormat)));
}

#[test]
fn malformed_entry_fails_alone() {
    // One entry of 16x16 whose four data bytes are neither PNG nor BMP.
    let bytes: Vec<u8> = vec![
        0, 0, 1, 0, 1, 0, 16, 16, 0, 0, 1, 0, 32, 0, 4, 0, 0, 0, 22, 0, 0, 0, b'a', b'b', b'c', b'd',
    ];
    let c = IconContainer::read(&bytes).unwrap();
    assert_eq!(c.widths(), vec![16]);
    let targets = vec![Ok("A/n".to_string())];
    let outcomes = unpack_entries(&c, &targets, &vec![false]);
    assert_eq!(outcomes, vec![EntryOutcome::Failed(UnpackError::ImageDecode)]);
}

#[test]
fn segment_resolutions() {
    assert_eq!(resolution_of_segment("16x16"), Some(16));
    assert_eq!(resolution_of_segment("256x256@2"), Some(256));
    assert_eq!(resolution_of_segment("4294967295x1"), Some(4294967295));
    assert_eq!(resolution_of_segment("4294967296x1"), None);
    assert_eq!(resolution_of_segment("x16"), None);
    assert_eq!(resolution_of_segment("1a6x16"), None);
    assert_eq!(resolution_of_segment("scalable"), None);
    assert_eq!(resolution_of_segment("apps"), None);
}

#[test]
fn first_naming_segment_counts() {
    let segs: Vec<String> = vec!["home".into(), "12x".into(), "48x48".into()];
    assert_eq!(resolution_of_entry(&segs), Some(12));
    let segs: Vec<String> = vec!["home".into(), "hicolor".into(), "scalable".into()];
    assert_eq!(resolution_of_entry(&segs), None);
}

#[test]
fn index_from_theme_entries() {
    let entries = vec![
        entry(&["", "icons", "hicolor", "16x16"]),
        entry(&["", "icons", "hicolor", "scalable"]),
        entry(&["", "icons", "hicolor", "32x32"]),
        entry(&["", "icons", "hicolor", "16x16@2"]),
    ];
    let index = get_resolutions(&entries);
    assert_eq!(index.dir_for(16), Some("/icons/hicolor/16x16@2".to_string()));
    assert_eq!(index.dir_for(32), Some("/icons/hicolor/32x32".to_string()));
    assert_eq!(index.dir_for(48), None);
}

fn bmp_entry_data(bits_per_pixel: u16, colors_used: u32) -> Vec<u8> {
    let mut d = Vec::new();
    d.extend_from_slice(&40u32.to_le_bytes());
    d.extend_from_slice(&1i32.to_le_bytes());
    d.extend_from_slice(&2i32.to_le_bytes());
    d.extend_from_slice(&1u16.to_le_bytes());
    d.extend_from_slice(&bits_per_pixel.to_le_bytes());
    d.extend_from_slice(&[0u8; 16]);
    d.extend_from_slice(&colors_used.to_le_bytes());
    d.extend_from_slice(&0u32.to_le_bytes());
    d.extend_from_slice(&[1, 2, 3, 0]);
    d.extend_from_slice(&[5, 0, 0, 0]);
    d.extend_from_slice(&[0, 0, 0, 0]);
    d
}

fn single_entry_container(data: &[u8]) -> Vec<u8> {
    let mut b: Vec<u8> = vec![0, 0, 1, 0, 1, 0, 1, 1, 0, 0, 1, 0, 8, 0];
    b.extend_from_slice(&(data.len() as u32).to_le_bytes());
    b.extend_from_slice(&22u32.to_le_bytes());
    b.extend_from_slice(data);
    b
}

#[test]
fn short_palette_entry_fails_without_panic() {
    let bytes = single_entry_container(&bmp_entry_data(8, 1));
    let c = IconContainer::read(&bytes).unwrap();
    assert_eq!(c.widths(), vec![1]);
    assert_eq!(c.render(0), Err(UnpackError::ImageDecode));
    let outcomes = unpack_entries(&c, &vec![Ok("A/n".to_string())], &vec![false]);
    assert_eq!(outcomes, vec![EntryOutcome::Failed(UnpackError::ImageDecode)]);
}

#[test]
fn short_palette_detection() {
    assert!(has_short_palette(&bmp_entry_data(8, 1)));
    assert!(has_short_palette(&bmp_entry_data(1, 1)));
    assert!(has_short_palette(&bmp_entry_data(4, 15)));
    assert!(!has_short_palette(&bmp_entry_data(4, 16)));
    assert!(!has_short_palette(&bmp_entry_data(8, 0)));
    assert!(!has_short_palette(&bmp_entry_data(8, 256)));
    assert!(!has_short_palette(&bmp_entry_data(24, 1)));
    assert!(!has_short_palette(&bmp_entry_data(8, 1)[..35].to_vec()));
    let mut png = bmp_entry_data(8, 1);
    png[..4].copy_from_slice(&[0x89, b'P', b'N', b'G']);
    assert!(!has_short_palette(&png));
}

#[test]
fn existing_output_skips_even_malformed_entry() {
    let bytes = single_entry_container(&bmp_entry_data(8, 1));
    let c = IconContainer::read(&bytes).unwrap();
    let outcomes = unpack_entries(&c, &vec![Ok("A/n".to_string())], &vec![true]);
    assert_eq!(outcomes, vec![EntryOutcome::Skipped("A/n".to_string())]);
}

#[test]
fn written_bytes_are_the_rendered_png() {
    let bytes = container_bytes(&[16, 32]);
    let c = IconContainer::read(&bytes).unwrap();
    let targets = vec![Ok("A/n".to_string()), Ok("B/n".to_string())];
    let outcomes = unpack_entries(&c, &targets, &vec![false, false]);
    assert_eq!(outcomes[0], EntryOutcome::Write("A/n".to_string(), c.render(0).unwrap()));
    assert_eq!(outcomes[1], EntryOutcome::Write("B/n".to_string(), c.render(1).unwrap()));
}

use fmod_bank_decoder::riff::{
    find_fsb5_chunk, parse_list_chunk, parse_riff, RiffChunk, RiffError, RiffFile,
};

fn chunk(id: &[u8; 4], data: &[u8]) -> Vec<u8> {
    let mut out = id.to_vec();
    out.extend_from_slice(&(data.len() as u32).to_le_bytes());
    out.extend_from_slice(data);
    if data.len() % 2 == 1 {
        out.push(0);
    }
    out
}

fn riff(chunks: &[Vec<u8>]) -> Vec<u8> {
    let body: Vec<u8> = chunks.concat();
    let mut out = b"RIFF".to_vec();
    out.extend_from_slice(&(body.len() as u32 + 4).to_le_bytes());
    out.extend_from_slice(b"FEV ");
    out.extend_from_slice(&body);
    out
}

fn list(kind: &[u8; 4], subs: &[Vec<u8>]) -> Vec<u8> {
    let mut body = kind.to_vec();
    body.extend_from_slice(&subs.concat());
    chunk(b"LIST", &body)
}

fn found(data: &[u8]) -> Result<Vec<u8>, RiffError> {
    let file = parse_riff(data)?;
    find_fsb5_chunk(data, &file).map(|d| d.to_vec())
}

#[test]
fn chunks_are_read_back_in_order() {
    let data = riff(&[chunk(b"PROJ", &[1, 2, 3]), chunk(b"WAVE", &[]), chunk(b"SNDH", &[9, 8])]);
    let file = parse_riff(&data).unwrap();
    assert_eq!(&file.format, b"FEV ");
    assert_eq!(file.format_str(), "FEV ");
    assert_eq!(file.chunks.len(), 3);
    assert_eq!(&file.chunks[0].id, b"PROJ");
    assert_eq!(file.chunks[0].id_str(), "PROJ");
    assert_eq!(file.chunks[0].size, 3);
    assert_eq!(file.chunks[0].data, &[1, 2, 3]);
    assert_eq!(&file.chunks[1].id, b"WAVE");
    assert!(file.chunks[1].data.is_empty());
    assert_eq!(file.chunks[2].data, &[9, 8]);
}

#[test]
fn an_odd_last_chunk_needs_no_padding() {
    let mut data = riff(&[chunk(b"ABCD", &[5])]);
    data.pop();
    data[4] -= 1;
    let file = parse_riff(&data).unwrap();
    assert_eq!(file.chunks.len(), 1);
    assert_eq!(file.chunks[0].data, &[5]);
}

#[test]
fn bytes_too_few_for_a_chunk_are_ignored() {
    let mut data = riff(&[chunk(b"ABCD", &[5, 6])]);
    data.extend_from_slice(&[1, 2, 3, 4, 5, 6, 7]);
    assert_eq!(parse_riff(&data).unwrap().chunks.len(), 1);
}

#[test]
fn chunks_behind_the_header_size_are_read_too() {
    let mut data = riff(&[chunk(b"ABCD", &[5, 6])]);
    data[4] = 4;
    data.extend_from_slice(&chunk(b"EFGH", &[]));
    assert_eq!(parse_riff(&data).unwrap().chunks.len(), 2);
}

#[test]
fn a_short_file_is_refused() {
    assert_eq!(parse_riff(b"RIFF").err(), Some(RiffError::TooSmall { len: 4 }));
    assert_eq!(parse_riff(&[]).err(), Some(RiffError::TooSmall { len: 0 }));
}

#[test]
fn other_containers_are_refused() {
    let mut data = riff(&[]);
    data[0] = b'X';
    assert_eq!(parse_riff(&data).err(), Some(RiffError::BadMagic { found: *b"XIFF" }));
    let mut data = riff(&[]);
    data[8..12].copy_from_slice(b"WAVE");
    assert_eq!(parse_riff(&data).err(), Some(RiffError::NotFev { format: *b"WAVE" }));
}

#[test]
fn sizes_past_the_end_are_refused() {
    let mut data = riff(&[]);
    data[4] = 5;
    assert_eq!(parse_riff(&data).err(), Some(RiffError::SizeExceedsFile { size: 5, len: 12 }));
    data[4..8].copy_from_slice(&[0xFF; 4]);
    assert_eq!(
        parse_riff(&data).err(),
        Some(RiffError::SizeExceedsFile { size: u32::MAX, len: 12 })
    );
    let mut data = riff(&[chunk(b"ABCD", &[5, 6])]);
    data[16] = 3;
    assert_eq!(
        parse_riff(&data).err(),
        Some(RiffError::ChunkOverrun { id: *b"ABCD", size: 3 })
    );
}

#[test]
fn a_list_is_taken_apart() {
    let data = riff(&[list(b"PROJ", &[chunk(b"AAAA", &[1]), chunk(b"BBBB", &[2, 3])])]);
    let file = parse_riff(&data).unwrap();
    let subs = parse_list_chunk(&file.chunks[0]).unwrap();
    assert_eq!(subs.len(), 2);
    assert_eq!(&subs[0].id, b"AAAA");
    assert_eq!(subs[0].data, &[1]);
    assert_eq!(&subs[1].id, b"BBBB");
    assert_eq!(subs[1].data, &[2, 3]);
    assert_eq!(subs[1].size, 2);
}

#[test]
fn what_is_no_list_is_refused() {
    let other = RiffChunk { id: *b"ABCD", size: 4, data: b"PROJ" };
    assert_eq!(parse_list_chunk(&other).err(), Some(RiffError::NotList { id: *b"ABCD" }));
    let short = RiffChunk { id: *b"LIST", size: 3, data: b"PRO" };
    assert_eq!(parse_list_chunk(&short).err(), Some(RiffError::ListTooSmall));
    let mut body = b"PROJ".to_vec();
    body.extend_from_slice(&chunk(b"AAAA", &[1, 2]));
    body[8] = 9;
    let long = RiffChunk { id: *b"LIST", size: body.len() as u32, data: &body };
    assert_eq!(
        parse_list_chunk(&long).err(),
        Some(RiffError::SubChunkOverrun { id: *b"AAAA", size: 9 })
    );
}

#[test]
fn tags_that_are_not_text_have_a_stand_in() {
    let odd = RiffChunk { id: [0xFF, 0xFE, 0, 1], size: 0, data: &[] };
    assert_eq!(odd.id_str(), "???");
    let accented = RiffChunk { id: [0xC3, 0xA4, b'b', b'c'], size: 0, data: &[] };
    assert_eq!(accented.id_str(), "\u{e4}bc");
    let file = RiffFile { format: [0x80, 0, 0, 0], chunks: vec![] };
    assert_eq!(file.format_str(), "???");
}

#[test]
fn the_first_sample_bank_among_the_chunks_is_found() {
    let data = riff(&[
        chunk(b"ABCD", &[1, 2]),
        chunk(b"FSB5", &[3, 4, 5]),
        chunk(b"FSB5", &[6]),
    ]);
    assert_eq!(found(&data), Ok(vec![3, 4, 5]));
    let data = riff(&[
        list(b"PROJ", &[chunk(b"ABCD", &[1]), chunk(b"FSB5", &[7, 7])]),
        chunk(b"FSB5", &[3]),
    ]);
    assert_eq!(found(&data), Ok(vec![7, 7]));
}

#[test]
fn a_broken_list_is_passed_over() {
    let mut bad = list(b"PROJ", &[chunk(b"FSB5", &[1, 2])]);
    bad[16] = 0x20;
    let data = riff(&[bad, chunk(b"FSB5", &[9])]);
    assert_eq!(found(&data), Ok(vec![9]));
}

fn raw_bank(sizes: [u32; 3], len: usize) -> Vec<u8> {
    let mut bank = b"FSB5".to_vec();
    bank.extend_from_slice(&1u32.to_le_bytes());
    bank.extend_from_slice(&0u32.to_le_bytes());
    for size in sizes {
        bank.extend_from_slice(&size.to_le_bytes());
    }
    bank.resize(len, 0xAB);
    bank
}

#[test]
fn a_sample_bank_is_found_by_its_magic() {
    let bank = raw_bank([8, 4, 2], 0x60);
    let mut body = vec![1, 2, 3, 4];
    body.extend_from_slice(&bank);
    let data = riff(&[chunk(b"SND ", &body)]);
    assert_eq!(found(&data), Ok(bank[..0x40 + 14].to_vec()));
}

#[test]
fn a_found_sample_bank_ends_with_the_file() {
    let bank = raw_bank([8, 4, 1000], 0x60);
    let data = riff(&[chunk(b"SND ", &bank)]);
    assert_eq!(found(&data), Ok(bank));
}

#[test]
fn the_length_of_a_found_sample_bank_is_taken_modulo() {
    let bank = raw_bank([u32::MAX, 1, 2], 0x60);
    let data = riff(&[chunk(b"SND ", &bank)]);
    assert_eq!(found(&data), Ok(bank[..0x42].to_vec()));
}

#[test]
fn a_magic_too_near_the_end_is_no_sample_bank() {
    let data = riff(&[chunk(b"SND ", &raw_bank([0, 0, 0], 0x3E))]);
    assert_eq!(found(&data), Err(RiffError::NoFsb5));
    assert_eq!(found(&riff(&[])), Err(RiffError::NoFsb5));
}

#[test]
fn the_size_in_the_header_only_has_to_fit() {
    let mut data = riff(&[chunk(b"ABCD", &[5, 6]), chunk(b"EFGH", &[7])]);
    let room = data.len() as u32 - 8;
    for size in [0, 1, 4, room] {
        data[4..8].copy_from_slice(&size.to_le_bytes());
        let file = parse_riff(&data).unwrap();
        assert_eq!(file.chunks.len(), 2);
        assert_eq!(file.chunks[1].data, &[7]);
    }
    data[4..8].copy_from_slice(&(room + 1).to_le_bytes());
    assert_eq!(
        parse_riff(&data).err(),
        Some(RiffError::SizeExceedsFile { size: room + 1, len: data.len() })
    );
}

#[test]
fn lists_and_containers_are_walked_alike() {
    let subs = [chunk(b"ABCD", &[5, 6, 7]), chunk(b"EFGH", &[])];
    let file_bytes = riff(&subs);
    let list_bytes = [b"TYPE".to_vec(), subs.concat()].concat();
    let file = parse_riff(&file_bytes).unwrap();
    let inside =
        parse_list_chunk(&RiffChunk { id: *b"LIST", size: 0, data: &list_bytes }).unwrap();
    assert_eq!(file.chunks.len(), inside.len());
    for (a, b) in file.chunks.iter().zip(&inside) {
        assert_eq!((a.id, a.size, a.data), (b.id, b.size, b.data));
    }
    let broken = [b"TYPE".to_vec(), b"ABCD\x09\0\0\0".to_vec()].concat();
    assert_eq!(
        parse_list_chunk(&RiffChunk { id: *b"LIST", size: 0, data: &broken }).err(),
        Some(RiffError::SubChunkOverrun { id: *b"ABCD", size: 9 })
    );
    assert_eq!(
        parse_riff(&riff(&[b"ABCD\x09\0\0\0".to_vec()])).err(),
        Some(RiffError::ChunkOverrun { id: *b"ABCD", size: 9 })
    );
}

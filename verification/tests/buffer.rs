use aligned_block_io::buffer::AlignedBuffer;

#[test]
fn allocate_gives_a_zeroed_block() {
    let buffer = AlignedBuffer::allocate(4096);
    assert_eq!(buffer.len(), 4096);
    assert_eq!(buffer.as_slice().len(), 4096);
    assert!(buffer.as_slice().iter().all(|b| *b == 0));
}

#[test]
fn allocate_aligns_for_each_block_size() {
    for block_size in [512usize, 4096, 8192] {
        let buffer = AlignedBuffer::allocate(block_size);
        assert_eq!(buffer.len(), block_size);
        assert_eq!(buffer.address() % block_size, 0);
    }
}

#[test]
fn recorded_address_is_where_the_bytes_are() {
    for block_size in [1usize, 512, 4096, 8192, 65536] {
        let mut buffer = AlignedBuffer::allocate(block_size);
        assert_eq!(buffer.as_slice().as_ptr() as usize, buffer.address());
        assert_eq!(buffer.as_slice().as_ptr() as usize % block_size, 0);
        let recorded = buffer.address();
        assert_eq!(buffer.as_mut_slice().as_ptr() as usize, recorded);
    }
}

#[test]
fn address_survives_moves_and_writes() {
    let mut buffers = Vec::new();
    for _ in 0..8 {
        buffers.push(AlignedBuffer::allocate(4096));
    }
    for buffer in buffers.iter_mut() {
        buffer.fill(b"moved");
        buffer.clear();
    }
    let moved: Vec<AlignedBuffer> = buffers.into_iter().rev().collect();
    for buffer in moved.iter() {
        assert_eq!(buffer.as_slice().as_ptr() as usize, buffer.address());
        assert_eq!(buffer.address() % 4096, 0);
    }
}

#[test]
fn fill_pads_with_zeros() {
    let mut buffer = AlignedBuffer::allocate(512);
    buffer.fill(b"Hello, O_DIRECT!");
    assert_eq!(&buffer.as_slice()[..16], b"Hello, O_DIRECT!");
    assert!(buffer.as_slice()[16..].iter().all(|b| *b == 0));
    assert_eq!(buffer.len(), 512);
}

#[test]
fn fill_overwrites_what_was_there() {
    let mut buffer = AlignedBuffer::allocate(512);
    buffer.fill(&[0xffu8; 512]);
    assert!(buffer.as_slice().iter().all(|b| *b == 0xff));
    buffer.fill(b"ab");
    assert_eq!(&buffer.as_slice()[..2], b"ab");
    assert!(buffer.as_slice()[2..].iter().all(|b| *b == 0));
}

#[test]
fn fill_with_nothing_zeroes_the_block() {
    let mut buffer = AlignedBuffer::allocate(512);
    buffer.fill(&[7u8; 512]);
    buffer.fill(&[]);
    assert!(buffer.as_slice().iter().all(|b| *b == 0));
}

#[test]
fn clear_zeroes_the_block() {
    let mut buffer = AlignedBuffer::allocate(512);
    buffer.fill(&[9u8; 512]);
    let address = buffer.address();
    buffer.clear();
    assert!(buffer.as_slice().iter().all(|b| *b == 0));
    assert_eq!(buffer.address(), address);
    assert_eq!(buffer.len(), 512);
}

#[test]
fn prefix_gives_the_first_bytes() {
    let mut buffer = AlignedBuffer::allocate(512);
    buffer.fill(b"Hello, O_DIRECT!");
    assert_eq!(buffer.prefix(16), b"Hello, O_DIRECT!");
    assert_eq!(buffer.prefix(5), b"Hello");
    assert_eq!(buffer.prefix(0), b"");
    assert_eq!(buffer.prefix(512).len(), 512);
}

#[test]
fn mutable_slice_is_the_block_itself() {
    let mut buffer = AlignedBuffer::allocate(512);
    {
        let bytes = buffer.as_mut_slice();
        assert_eq!(bytes.len(), 512);
        bytes[0] = 1;
        bytes[511] = 2;
    }
    assert_eq!(buffer.as_slice()[0], 1);
    assert_eq!(buffer.as_slice()[511], 2);
    assert!(buffer.as_slice()[1..511].iter().all(|b| *b == 0));
    assert_eq!(buffer.len(), 512);
}

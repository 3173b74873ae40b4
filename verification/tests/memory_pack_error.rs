use renderide::memory_pack_error::MemoryPackError;

#[test]
fn buffer_too_small_display_is_stable() {
    let err = MemoryPackError::BufferTooSmall {
        ty: "i32",
        needed: 4,
        remaining: 1,
    };
    assert_eq!(
        err.to_string(),
        "packer buffer too small: needed 4 byte(s) for i32, 1 byte(s) remaining"
    );
}

#[test]
fn buffer_too_small_display_handles_zero_remaining() {
    let err = MemoryPackError::BufferTooSmall {
        ty: "u8",
        needed: 1,
        remaining: 0,
    };
    assert_eq!(
        err.to_string(),
        "packer buffer too small: needed 1 byte(s) for u8, 0 byte(s) remaining"
    );
}

#[test]
fn equality_and_copy_round_trip() {
    let a = MemoryPackError::BufferTooSmall {
        ty: "T",
        needed: 8,
        remaining: 4,
    };
    let b = a;
    assert_eq!(a, b);

    let different = MemoryPackError::BufferTooSmall {
        ty: "T",
        needed: 8,
        remaining: 5,
    };
    assert_ne!(a, different);
}

#[test]
fn buffer_too_small_display_writes_large_counts() {
    let err = MemoryPackError::BufferTooSmall {
        ty: "Vec<u8>",
        needed: 1234567,
        remaining: 10,
    };
    assert_eq!(
        err.to_string(),
        "packer buffer too small: needed 1234567 byte(s) for Vec<u8>, 10 byte(s) remaining"
    );
}

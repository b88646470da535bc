use vanity::key::{DecodeError, Key};

#[test]
fn key_keeps_its_bytes() {
    let mut bytes = [0u8; 32];
    for (i, b) in bytes.iter_mut().enumerate() {
        *b = i as u8;
    }
    let key = Key::new(bytes);
    assert_eq!(key.to_bytes(), bytes);
    assert_eq!(key.as_bytes(), &bytes[..]);
}

#[test]
fn base58_of_known_keys() {
    assert_eq!(Key::new([0u8; 32]).to_base58(), "11111111111111111111111111111111");
    assert_eq!(
        Key::new([255u8; 32]).to_base58(),
        "JEKNVnkbo3jma5nREBBJCDoXFVeKkD56V3xKrvRmWxFG"
    );
    let mut bytes = [0u8; 32];
    for (i, b) in bytes.iter_mut().enumerate() {
        *b = i as u8;
    }
    assert_eq!(Key::new(bytes).to_base58(), "1thX6LZfHDZZKUs92febYZhYRcXddmzfzF2NvTkPNE");
}

#[test]
fn base58_round_trip() {
    let mut samples: Vec<[u8; 32]> = vec![[0u8; 32], [255u8; 32], [1u8; 32]];
    for k in 0..32usize {
        let mut bytes = [0u8; 32];
        for (i, b) in bytes.iter_mut().enumerate() {
            *b = if i < k { 0 } else { (i * 7 + k * 13 + 1) as u8 };
        }
        samples.push(bytes);
    }
    for bytes in samples {
        let key = Key::new(bytes);
        let text = key.to_base58();
        assert_eq!(Key::from_base58(&text).map(|k| k.to_bytes()), Ok(bytes));
        assert_eq!(key.round_trip().map(|k| k.to_bytes()), Ok(bytes));
    }
}

#[test]
fn from_base58_reads_a_known_key() {
    let key = Key::from_base58("XkCriyrNwS3G4rzAXtG5B1nnvb5Ka1JtCku93VqeKAr").unwrap();
    assert_eq!(
        key.to_bytes(),
        [
            7, 224, 70, 147, 60, 112, 144, 250, 46, 62, 133, 57, 252, 149, 220, 143, 237, 77, 21,
            208, 191, 61, 58, 206, 152, 136, 129, 103, 129, 48, 141, 139
        ]
    );
    let program = Key::from_base58("TokenkegQfeZyiNwAJbNbGKPFXCWuBvf9Ss623VQ5DA").unwrap();
    assert_eq!(program.to_base58(), "TokenkegQfeZyiNwAJbNbGKPFXCWuBvf9Ss623VQ5DA");
}

#[test]
fn from_base58_rejects_an_invalid_character() {
    assert_eq!(Key::from_base58("l").map(|k| k.to_bytes()), Err(DecodeError::InvalidCharacter));
    assert_eq!(
        Key::from_base58("0kenkegQfeZyiNwAJbNbGKPFXCWuBvf9Ss623VQ5DA").map(|k| k.to_bytes()),
        Err(DecodeError::InvalidCharacter)
    );
}

#[test]
fn from_base58_rejects_a_text_too_long() {
    assert_eq!(
        Key::from_base58("4uQeVj5tqViQh7yWWGStvkEG1Zmhx6uasJtWCJziofLRda4").map(|k| k.to_bytes()),
        Err(DecodeError::InputTooLong)
    );
    assert_eq!(
        Key::from_base58("111111111111111111111111111111111").map(|k| k.to_bytes()),
        Err(DecodeError::InputTooLong)
    );
}

#[test]
fn from_base58_rejects_a_text_too_short() {
    assert_eq!(
        Key::from_base58("4uQeVj5tqViQh7yWWGStvkEG1Zmhx6uasJtWCJz").map(|k| k.to_bytes()),
        Err(DecodeError::InputTooShort)
    );
    assert_eq!(Key::from_base58("").map(|k| k.to_bytes()), Err(DecodeError::InputTooShort));
}

#[test]
fn from_base58_rejects_a_value_too_large() {
    assert_eq!(
        Key::from_base58("JEKNVnkbo3jma5nREBBJCDoXFVeKkD56V3xKrvRmWxFJ").map(|k| k.to_bytes()),
        Err(DecodeError::InvalidByteAmount)
    );
}

#[test]
fn base58_text_has_32_to_44_characters() {
    assert_eq!(Key::new([0u8; 32]).to_base58().len(), 32);
    assert_eq!(Key::new([255u8; 32]).to_base58().len(), 44);
    for k in 0..=32usize {
        let mut bytes = [0u8; 32];
        for b in bytes.iter_mut().skip(k) {
            *b = 1;
        }
        let mut top = [0u8; 32];
        for b in top.iter_mut().skip(k) {
            *b = 255;
        }
        for sample in [bytes, top] {
            let text = Key::new(sample).to_base58();
            assert!(text.len() >= 32 && text.len() <= 44);
            assert!(text.chars().all(|c| c.is_ascii_alphanumeric() && !"0IOl".contains(c)));
            assert_eq!(Key::from_base58(&text), Ok(Key::new(sample)));
        }
    }
}

#[test]
fn base58_of_keys_at_odd_places() {
    let mut block = [0u8; 40];
    for (i, b) in block.iter_mut().enumerate() {
        *b = (i * 37 + 11) as u8;
    }
    for shift in 0..8usize {
        let mut bytes = [0u8; 32];
        bytes.copy_from_slice(&block[shift..shift + 32]);
        let keys = [(shift as u8, Key::new(bytes)), (0u8, Key::new(bytes))];
        for (_, key) in keys.iter() {
            let text = key.to_base58();
            assert_eq!(Key::from_base58(&text).map(|k| k.to_bytes()), Ok(bytes));
        }
    }
}

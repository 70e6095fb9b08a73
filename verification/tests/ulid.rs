use yulid::parser::Case;
use yulid::parser::ParseError;
use yulid::parser::decode;
use yulid::parser::encode;
use yulid::Bytes;
use yulid::BytesError;
use yulid::Ulid;

const TEST_BYTES: Bytes = [
    1, 103, 245, 214, 154, 12, // timestamp
    107, 200, 228, 194, 102, 58, 236, 82, 247, 87, // random
];
const TEST_BASE32: &str = "05kzbnmt1hnwhs62crxermqqaw";
const TEST_MILLIS: i64 = 1546017741324;

const TEST_FIELD_1: u32 = 23590358;
const TEST_FIELD_2: u16 = 39436;
const TEST_FIELD_3: u16 = 27592;
const TEST_FIELD_4: u32 = 3837945402;
const TEST_FIELD_5: u32 = 3964860247;

#[test]
fn from_fields() {
    let expected = Ulid::from_bytes(TEST_BYTES);
    let result = Ulid::from_fields(
        TEST_FIELD_1,
        TEST_FIELD_2,
        TEST_FIELD_3,
        TEST_FIELD_4,
        TEST_FIELD_5,
    );

    assert_eq!(expected, result);
}

#[test]
fn as_fields() {
    let ulid = Ulid::from_bytes(TEST_BYTES);
    let (f1, f2, f3, f4, f5) = ulid.as_fields();

    assert_eq!(f1, TEST_FIELD_1);
    assert_eq!(f2, TEST_FIELD_2);
    assert_eq!(f3, TEST_FIELD_3);
    assert_eq!(f4, TEST_FIELD_4);
    assert_eq!(f5, TEST_FIELD_5);
}

#[test]
fn from_str() {
    let expected = Ulid::from_bytes(TEST_BYTES);
    let result = Ulid::parse_str(TEST_BASE32);

    assert_eq!(Ok(expected), result);
}

#[test]
fn to_lowercase() {
    let ulid = Ulid::from_bytes(TEST_BYTES);

    assert_eq!(ulid.to_lowercase().encode(), TEST_BASE32);
}

#[test]
fn to_uppercase() {
    let ulid = Ulid::from_bytes(TEST_BYTES);

    assert_eq!(ulid.to_uppercase().encode(), TEST_BASE32.to_uppercase());
}

#[test]
fn timestamp_millis() {
    let ulid = Ulid::from_bytes(TEST_BYTES);

    assert_eq!(ulid.as_millis(), TEST_MILLIS);
}

#[test]
fn from_str_trait() {
    let parsed: Ulid = TEST_BASE32.parse().unwrap();

    assert_eq!(parsed, Ulid::from_bytes(TEST_BYTES));
    assert!("not a ulid".parse::<Ulid>().is_err());
}

#[test]
fn encode_fixed_vector() {
    assert_eq!(encode(Case::Lower, &TEST_BYTES), TEST_BASE32);
    assert_eq!(encode(Case::Upper, &TEST_BYTES), TEST_BASE32.to_uppercase());
}

#[test]
fn decode_fixed_vector() {
    assert_eq!(decode(TEST_BASE32), Ok(TEST_BYTES.to_vec()));
}

#[test]
fn encode_decode_round_trip() {
    let bytes: Bytes = [0, 255, 17, 34, 51, 68, 85, 102, 119, 136, 153, 170, 187, 204, 221, 238];

    let lower = encode(Case::Lower, &bytes);
    assert_eq!(decode(&lower), Ok(bytes.to_vec()));

    let upper = encode(Case::Upper, &bytes);
    assert_eq!(decode(&upper), Ok(bytes.to_vec()));
}

#[test]
fn parse_round_trips_either_case() {
    let ulid = Ulid::from_bytes(TEST_BYTES);

    assert_eq!(Ulid::parse_str(&ulid.to_lowercase().encode()), Ok(ulid));
    assert_eq!(Ulid::parse_str(&ulid.to_uppercase().encode()), Ok(ulid));
}

#[test]
fn case_differs_only_in_letters() {
    let ulid = Ulid::from_bytes(TEST_BYTES);
    let lower = ulid.to_lowercase_ref().encode();
    let upper = ulid.to_uppercase_ref().encode();

    assert_eq!(lower.len(), upper.len());
    for (l, u) in lower.bytes().zip(upper.bytes()) {
        if u.is_ascii_digit() {
            assert_eq!(l, u);
        } else {
            assert!(u.is_ascii_uppercase());
            assert_eq!(l, u + 32);
        }
    }
}

#[test]
fn fields_round_trip() {
    let ulid = Ulid::from_fields(1, 2, 3, 4, 5);
    assert_eq!(ulid.as_fields(), (1, 2, 3, 4, 5));

    let ulid = Ulid::from_fields(u32::MAX, u16::MAX, u16::MAX, u32::MAX, u32::MAX);
    assert_eq!(
        ulid.as_fields(),
        (u32::MAX, u16::MAX, u16::MAX, u32::MAX, u32::MAX),
    );
}

#[test]
fn u128_round_trip() {
    assert_eq!(Ulid::from_u128(0).as_u128(), 0);
    assert_eq!(Ulid::from_u128(1).as_u128(), 1);
    assert_eq!(Ulid::from_u128(u128::MAX).as_u128(), u128::MAX);
    let value: u128 = 0x0167_f5d6_9a0c_6bc8_e4c2_663a_ec52_f757;
    assert_eq!(Ulid::from_u128(value).as_u128(), value);
    assert_eq!(Ulid::from_u128(value), Ulid::from_bytes(TEST_BYTES));
}

#[test]
fn from_slice_wrong_length() {
    let result = Ulid::from_slice(&[1, 2, 3, 4]);

    assert_eq!(result, Err(BytesError::new(16, 4)));
    let err = result.unwrap_err();
    assert_eq!(err.expected(), 16);
    assert_eq!(err.found(), 4);
}

#[test]
fn from_slice_exact_length() {
    let ulid = Ulid::from_slice(&TEST_BYTES).unwrap();

    assert_eq!(ulid, Ulid::from_bytes(TEST_BYTES));
    assert_eq!(ulid.as_bytes(), &TEST_BYTES);
}

#[test]
fn parse_invalid_length() {
    let short = "05kzbnmt1hnwhs62crxermqqa";
    let long = "05kzbnmt1hnwhs62crxermqqaw0";

    assert_eq!(short.len(), 25);
    assert_eq!(long.len(), 27);
    assert_eq!(
        Ulid::parse_str(short),
        Err(ParseError::InvalidLength { found: 25 }),
    );
    assert_eq!(
        Ulid::parse_str(long),
        Err(ParseError::InvalidLength { found: 27 }),
    );
}

#[test]
fn parse_invalid_character() {
    // 'u' is excluded from the Crockford alphabet; it sits at absolute
    // position 25, which is position 1 of the fourth 8-character chunk.
    let input = "05kzbnmt1hnwhs62crxermqqau";

    assert_eq!(
        Ulid::parse_str(input),
        Err(ParseError::InvalidCharacter {
            found: 'u',
            index: 1,
        }),
    );

    // a padding character is not a symbol either
    let padded = "05kzbnmt1hnwhs62crxermqqa=";
    assert_eq!(
        Ulid::parse_str(padded),
        Err(ParseError::InvalidCharacter {
            found: '=',
            index: 1,
        }),
    );

    // a non-ASCII byte fails at its own position: here byte 8, which is
    // position 0 of the second chunk
    let non_ascii = "05kzbnmt\u{e9}hnwhs62crxermqqa";
    assert_eq!(non_ascii.len(), 26);
    assert!(matches!(
        Ulid::parse_str(non_ascii),
        Err(ParseError::InvalidCharacter { index: 0, .. }),
    ));
}

#[test]
fn parse_aliases() {
    let expected = Ulid::from_bytes(TEST_BYTES);

    // 'o' reads as 0 and 'i'/'l' read as 1
    assert_eq!(
        Ulid::parse_str("o5kzbnmt1hnwhs62crxermqqaw"),
        Ok(expected),
    );
    assert_eq!(
        Ulid::parse_str("05kzbnmtihnwhs62crxermqqaw"),
        Ok(expected),
    );
    assert_eq!(
        Ulid::parse_str("05kzbnmtLhnwhs62crxermqqaw"),
        Ok(expected),
    );
}

#[test]
fn error_descriptions() {
    let character = ParseError::InvalidCharacter {
        found: 'u',
        index: 1,
    };
    let length = ParseError::InvalidLength { found: 25 };

    assert_eq!(character._description(), "invalid character");
    assert_eq!(length._description(), "invalid length");
}

#[test]
fn millis_ordering() {
    let earlier = Ulid::from_millis_bytes(1000, [0xFF; 10]);
    let later = Ulid::from_millis_bytes(1001, [0x00; 10]);

    assert!(earlier < later);
    assert!(earlier.as_bytes() < later.as_bytes());
}

#[test]
fn from_millis_bytes_layout() {
    let ulid = Ulid::from_millis_bytes(TEST_MILLIS, [107, 200, 228, 194, 102, 58, 236, 82, 247, 87]);

    assert_eq!(ulid, Ulid::from_bytes(TEST_BYTES));
    assert_eq!(ulid.as_millis(), TEST_MILLIS);
}

#[test]
fn from_millis_keeps_timestamp() {
    let ulid = Ulid::from_millis(TEST_MILLIS);

    assert_eq!(ulid.as_millis(), TEST_MILLIS);
    assert_eq!(&ulid.as_bytes()[0..6], &TEST_BYTES[0..6]);
}

#[test]
fn negative_millis_round_trip() {
    let ulid = Ulid::from_millis_bytes(-1, [0; 10]);

    assert_eq!(&ulid.as_bytes()[0..6], &[0xFF; 6]);
    assert_eq!(ulid.as_millis(), -1);
}

#[test]
fn new_parses_back() {
    let ulid = Ulid::new();
    let text = ulid.to_lowercase().encode();

    assert_eq!(text.len(), 26);
    assert_eq!(Ulid::parse_str(&text), Ok(ulid));
}

use bytes::Bytes;
use bytes_ext::BytesCollect;

fn collect(chunks: Vec<Bytes>) -> Bytes {
    let mut collect = BytesCollect::new();
    collect.extend(chunks);
    Bytes::from(collect)
}

fn pattern(len: usize, seed: u8) -> Vec<u8> {
    let mut bytes = Vec::with_capacity(len);
    for i in 0..len {
        bytes.push(seed.wrapping_add((i % 251) as u8));
    }
    bytes
}

#[test]
fn new_collect_is_empty() {
    let bytes = Bytes::from(BytesCollect::new());
    assert!(bytes.is_empty());
    assert_eq!(bytes.len(), 0);
    assert_eq!(bytes, Bytes::new());
}

#[test]
fn default_collect_is_empty() {
    let bytes: Bytes = BytesCollect::default().into();
    assert_eq!(bytes.len(), 0);
    assert_eq!(&bytes[..], b"");
}

#[test]
fn extend_with_no_chunks_appends_nothing() {
    let mut collect = BytesCollect::new();
    collect.extend(Vec::new());
    assert_eq!(Bytes::from(collect).len(), 0);

    let mut collect = BytesCollect::new();
    collect.extend(vec![Bytes::from_static(b"xyz")]);
    collect.extend(Vec::new());
    assert_eq!(&Bytes::from(collect)[..], b"xyz");
}

#[test]
fn chunks_with_an_empty_one_between() {
    let chunks = vec![
        Bytes::from_static(b"ab"),
        Bytes::from_static(b""),
        Bytes::from_static(b"cde"),
    ];
    let bytes = collect(chunks);
    assert_eq!(bytes.len(), 5);
    assert_eq!(&bytes[..], b"abcde");
    assert_eq!(bytes, Bytes::from_static(b"abcde"));
}

#[test]
fn collect_is_the_concatenation() {
    let parts: Vec<Vec<u8>> = vec![
        pattern(1, 7),
        pattern(0, 0),
        pattern(300, 100),
        pattern(17, 250),
        pattern(4096, 3),
    ];
    let chunks: Vec<Bytes> = parts.iter().map(|part| Bytes::from(part.clone())).collect();
    let expected: Vec<u8> = parts.concat();
    let bytes = collect(chunks);
    assert_eq!(bytes.len(), expected.len());
    assert_eq!(&bytes[..], &expected[..]);
}

#[test]
fn order_of_chunks_is_kept() {
    let forward = collect(vec![Bytes::from_static(b"one"), Bytes::from_static(b"two")]);
    let backward = collect(vec![Bytes::from_static(b"two"), Bytes::from_static(b"one")]);
    assert_eq!(&forward[..], b"onetwo");
    assert_eq!(&backward[..], b"twoone");
    assert_ne!(forward, backward);
}

#[test]
fn two_calls_equal_one_call() {
    let c1 = Bytes::from_static(b"first,");
    let c2 = Bytes::from_static(b"second,");
    let c3 = Bytes::from_static(b"third");

    let mut split = BytesCollect::new();
    split.extend(vec![c1.clone()]);
    split.extend(vec![c2.clone(), c3.clone()]);
    let split = Bytes::from(split);

    let whole = collect(vec![c1, c2, c3]);

    assert_eq!(split, whole);
    assert_eq!(&whole[..], b"first,second,third");
}

#[test]
fn later_calls_append_behind_earlier_bytes() {
    let mut collect = BytesCollect::new();
    collect.extend(vec![Bytes::from_static(b"a")]);
    collect.extend(vec![Bytes::from_static(b"b")]);
    collect.extend(vec![Bytes::from_static(b"c"), Bytes::from_static(b"d")]);
    assert_eq!(&Bytes::from(collect)[..], b"abcd");
}

#[test]
fn single_chunk_comes_back_unchanged() {
    let chunk = Bytes::from(pattern(1000, 42));
    let bytes = collect(vec![chunk.clone()]);
    assert_eq!(bytes.len(), chunk.len());
    assert_eq!(bytes.len(), 1000);
    assert_eq!(bytes, chunk);
}

#[test]
fn single_empty_chunk_gives_an_empty_buffer() {
    let bytes = collect(vec![Bytes::new()]);
    assert_eq!(bytes.len(), 0);
}

#[test]
fn uniform_chunks_give_count_times_size() {
    let count: usize = 2000;
    let size: usize = 512;
    let chunk = Bytes::from(pattern(size, 9));
    let chunks: Vec<Bytes> = (0..count).map(|_| chunk.clone()).collect();
    let appended: usize = chunks.iter().map(|c| c.len()).sum();
    let bytes = collect(chunks);
    assert_eq!(appended, count * size);
    assert_eq!(bytes.len(), 1_024_000);
    for i in 0..count {
        assert_eq!(&bytes[i * size..(i + 1) * size], &chunk[..]);
    }
}

#[test]
fn uniform_chunks_over_many_calls() {
    let count: usize = 300;
    let size: usize = 100;
    let chunk = Bytes::from(pattern(size, 200));
    let mut collect = BytesCollect::new();
    for _ in 0..count {
        collect.extend(vec![chunk.clone()]);
    }
    let bytes = Bytes::from(collect);
    assert_eq!(bytes.len(), 30_000);
    assert_eq!(&bytes[29_900..], &chunk[..]);
}

#[test]
fn chunks_are_left_as_they_were() {
    let shared = Bytes::from(pattern(64, 1));
    let kept = shared.clone();
    let bytes = collect(vec![shared.clone(), shared]);
    assert_eq!(&kept[..], &pattern(64, 1)[..]);
    assert_eq!(bytes.len(), 128);
    assert_eq!(&bytes[..64], &kept[..]);
    assert_eq!(&bytes[64..], &kept[..]);
}

#[test]
fn owned_first_chunk_is_kept_when_more_follows() {
    let owned = Bytes::from(vec![1u8, 2, 3, 4]);
    let mut collect = BytesCollect::new();
    collect.extend(vec![owned]);
    collect.extend(vec![Bytes::from_static(&[5u8, 6])]);
    assert_eq!(&Bytes::from(collect)[..], &[1u8, 2, 3, 4, 5, 6]);
}

#[test]
fn slices_of_a_buffer_are_collected_by_their_own_bytes() {
    let whole = Bytes::from_static(b"0123456789");
    let chunks = vec![whole.slice(7..), whole.slice(..3), whole.slice(3..7)];
    assert_eq!(&collect(chunks)[..], b"7890123456");
}

#[test]
fn try_extend_appends_what_fits() {
    let mut collect = BytesCollect::new();
    let first = collect.try_extend(vec![Bytes::from_static(b"ab"), Bytes::from_static(b"")]);
    assert!(first.is_ok());
    let second = collect.try_extend(vec![Bytes::from_static(b"cde")]);
    assert_eq!(second, Ok(()));
    let bytes = Bytes::from(collect);
    assert_eq!(bytes.len(), 5);
    assert_eq!(&bytes[..], b"abcde");
}

#[test]
fn try_extend_with_no_chunks() {
    let mut collect = BytesCollect::new();
    assert!(collect.try_extend(Vec::new()).is_ok());
    assert!(Bytes::from(collect).is_empty());
}

#[test]
fn try_extend_and_extend_agree() {
    let chunks = vec![Bytes::from(pattern(33, 5)), Bytes::from(pattern(77, 6))];
    let mut tried = BytesCollect::new();
    assert!(tried.try_extend(chunks.clone()).is_ok());
    assert_eq!(Bytes::from(tried), collect(chunks));
}

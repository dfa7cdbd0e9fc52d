use bof::error::IndexError;
use bof::index::index_command;
use bof::record::read_hash_field;
use bof::metadata::FileInfo;
use bof::record::Record;
use bof::time::Timestamp;
use bof::tree::Node;

const HELLO: &str = "aaf4c61ddcc5e8a2dabede0f3b482cd9aea9434d";
const EMPTY: &str = "da39a3ee5e6b4b0d3255bfef95601890afd80709";

fn file(path: &str, inode: u64, contents: &[u8]) -> Node {
    Node::File {
        path: String::from(path),
        inode,
        info: FileInfo {
            created: Timestamp { secs: 1431648000, nanos: 0 },
            modified: Timestamp { secs: 1700000000, nanos: 5 },
            size: contents.len() as u64,
        },
        contents: Vec::from(contents),
    }
}

fn directory(path: &str, inode: u64, children: Vec<Node>) -> Node {
    Node::Directory { path: String::from(path), inode, children }
}

fn record(shard: &str, file_name: &str, contents: &str) -> Record {
    Record {
        shard: String::from(shard),
        file_name: String::from(file_name),
        contents: String::from(contents),
    }
}

const HELLO_RECORD: &str = "HASH : aaf4c61ddcc5e8a2dabede0f3b482cd9aea9434d\nINODE : 11\n\nCREATION TIME : 15/05/2015 00:00:00\nLAST MODIFICATION TIME : 14/11/2023 22:13:20\nSIZE IN BYTES : 5\n\n";

#[test]
fn indexing_a_single_file() {
    let records = index_command(&file("a.txt", 11, b"hello")).unwrap();
    assert_eq!(records.len(), 1);
    assert_eq!(records[0].shard, &HELLO[0..2]);
    assert_eq!(records[0].file_name, format!("{}.txt", &HELLO[2..]));
    assert!(records[0].contents.contains(&format!("HASH : {}", HELLO)));
    assert_eq!(records[0].contents, HELLO_RECORD);
    assert_eq!(read_hash_field(&records[0].contents), Some(String::from(HELLO)));
}

#[test]
fn indexing_an_empty_directory() {
    let records = index_command(&directory("./d", 20, Vec::new())).unwrap();
    assert_eq!(
        records,
        vec![record(
            "da",
            "39a3ee5e6b4b0d3255bfef95601890afd80709.txt",
            "HASH : da39a3ee5e6b4b0d3255bfef95601890afd80709\nINODE : 20\n\n"
        )]
    );
    assert_eq!(read_hash_field(&records[0].contents), Some(String::from(EMPTY)));
}

#[test]
fn indexing_a_directory_with_one_file() {
    let tree = directory("./d", 20, vec![file("./d/a.txt", 11, b"hello")]);
    let records = index_command(&tree).unwrap();
    assert_eq!(
        records,
        vec![
            record("aa", "f4c61ddcc5e8a2dabede0f3b482cd9aea9434d.txt", HELLO_RECORD),
            record(
                "cc",
                "7b20a1decb142de484efb18679801524b814f6.txt",
                "HASH : cc7b20a1decb142de484efb18679801524b814f6\nINODE : 20\nNAME : ./d/a.txt\nKIND : FILE\nHASH : aaf4c61ddcc5e8a2dabede0f3b482cd9aea9434d\n\n"
            ),
        ]
    );
}

#[test]
fn renaming_a_file_changes_its_directory_and_not_the_file() {
    let a = index_command(&directory("./d", 20, vec![file("./d/a.txt", 11, b"hello")])).unwrap();
    let b = index_command(&directory("./d", 20, vec![file("./d/b.txt", 11, b"hello")])).unwrap();
    assert_eq!(a[0], b[0]);
    assert_eq!(read_hash_field(&b[1].contents), Some(String::from("3201ed7568321b345a1c615b74804645d9c20797")));
    assert_ne!(a[1].shard, b[1].shard);
    assert_ne!(a[1].file_name, b[1].file_name);
}

#[test]
fn indexing_what_is_neither_file_nor_directory() {
    let broken = Node::Other { path: String::from("./missing"), inode: 0 };
    assert_eq!(index_command(&broken), Ok(vec![record("", ".txt", "HASH : \nINODE : 0\n\n")]));
}

#[test]
fn entries_that_are_neither_share_one_record_name() {
    let tree = directory(
        "./d",
        20,
        vec![
            Node::Other { path: String::from("./d/pipe"), inode: 31 },
            Node::Other { path: String::from("./d/socket"), inode: 32 },
        ],
    );
    let records = index_command(&tree).unwrap();
    assert_eq!(
        records,
        vec![
            record("", ".txt", "HASH : \nINODE : 31\n\n"),
            record("", ".txt", "HASH : \nINODE : 32\n\n"),
            record(
                "da",
                "39a3ee5e6b4b0d3255bfef95601890afd80709.txt",
                "HASH : da39a3ee5e6b4b0d3255bfef95601890afd80709\nINODE : 20\n\n"
            ),
        ]
    );
}

#[test]
fn children_are_stored_before_their_parent() {
    let tree = directory(
        "./d",
        1,
        vec![
            directory("./d/sub", 2, vec![file("./d/sub/a.txt", 3, b"hello")]),
            file("./d/z", 4, b"world"),
        ],
    );
    let records = index_command(&tree).unwrap();
    let digests: Vec<Option<String>> =
        records.iter().map(|r| read_hash_field(&r.contents)).collect();
    assert_eq!(
        digests,
        vec![
            Some(String::from("aaf4c61ddcc5e8a2dabede0f3b482cd9aea9434d")),
            Some(String::from("1675dcaeef79713ea0fd12d9d22d69c5cfeb2c83")),
            Some(String::from("7c211433f02071597741e6ff5a8ea34789abbf43")),
            Some(String::from("47235d1c3f5ebf3943dca46255ee53f11a7905ae")),
        ]
    );
    assert!(records[1].contents.contains("INODE : 2\nNAME : ./d/sub/a.txt\nKIND : FILE\n"));
    assert!(records[3].contents.contains("NAME : ./d/sub\nKIND : DIRECTORY\nHASH : 1675dcaeef79713ea0fd12d9d22d69c5cfeb2c83\n"));
}

#[test]
fn every_record_is_named_by_the_digest_it_holds() {
    let tree = directory(
        "./d",
        1,
        vec![
            directory("./d/sub", 2, vec![file("./d/sub/a.txt", 3, b"hello")]),
            Node::Other { path: String::from("./d/pipe"), inode: 5 },
            file("./d/z", 4, b"world"),
        ],
    );
    for record in index_command(&tree).unwrap() {
        let digest = read_hash_field(&record.contents).unwrap();
        if digest.is_empty() {
            assert_eq!(record.shard, "");
            assert_eq!(record.file_name, ".txt");
        } else {
            assert_eq!(digest.len(), 40);
            assert_eq!(record.shard, &digest[..2]);
            assert_eq!(record.file_name, format!("{}.txt", &digest[2..]));
        }
    }
}

#[test]
fn files_of_equal_content_share_one_record_name() {
    let tree = directory(
        "./d",
        1,
        vec![file("./d/a", 2, b"hello"), file("./d/b", 3, b"hello")],
    );
    let records = index_command(&tree).unwrap();
    assert_eq!(records[0].shard, records[1].shard);
    assert_eq!(records[0].file_name, records[1].file_name);
    assert_ne!(records[0].contents, records[1].contents);
}

#[test]
fn indexing_again_gives_the_same_records() {
    let build = || {
        directory(
            "./d",
            1,
            vec![
                directory("./d/sub", 2, vec![file("./d/sub/a.txt", 3, b"hello")]),
                file("./d/z", 4, b"world"),
            ],
        )
    };
    assert_eq!(index_command(&build()), index_command(&build()));
    let tree = build();
    assert_eq!(index_command(&tree), index_command(&tree));
}

#[test]
fn a_file_that_is_not_text_stops_the_indexing() {
    assert_eq!(index_command(&file("a", 1, &[0x80])), Err(IndexError::Encoding));
    let tree = directory("./d", 1, vec![file("./d/a", 2, b"hello"), file("./d/b", 3, &[0xff])]);
    assert_eq!(index_command(&tree), Err(IndexError::Encoding));
}

#[test]
fn a_time_without_a_date_stops_the_indexing() {
    let late = Node::File {
        path: String::from("./late"),
        inode: 1,
        info: FileInfo {
            created: Timestamp { secs: 0, nanos: 0 },
            modified: Timestamp { secs: i64::MAX, nanos: 0 },
            size: 0,
        },
        contents: Vec::new(),
    };
    assert_eq!(index_command(&late), Err(IndexError::Timestamp));
    let tree = directory("./d", 2, vec![late]);
    assert_eq!(index_command(&tree), Err(IndexError::Timestamp));
}

#[test]
fn the_first_failure_in_storing_order_is_reported() {
    let late = |path: &str, contents: &[u8]| Node::File {
        path: String::from(path),
        inode: 1,
        info: FileInfo {
            created: Timestamp { secs: i64::MIN, nanos: 0 },
            modified: Timestamp { secs: 0, nanos: 0 },
            size: 0,
        },
        contents: Vec::from(contents),
    };
    let time_first = directory("./d", 2, vec![late("./d/a", b"ok"), file("./d/b", 3, &[0xff])]);
    assert_eq!(index_command(&time_first), Err(IndexError::Timestamp));
    let text_first = directory("./d", 2, vec![file("./d/a", 3, &[0xff]), late("./d/b", b"ok")]);
    assert_eq!(index_command(&text_first), Err(IndexError::Encoding));
    assert_eq!(index_command(&late("./c", &[0xff])), Err(IndexError::Encoding));
}

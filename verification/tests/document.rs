use collab_duplicator::document::{
    clone_document, mention_of, page_mentions, rewrite_page_mentions, shows_database, Block,
    DocumentData, TextEntry,
};
use collab_duplicator::ids::IdRewriter;
use collab_duplicator::json::{JsonMember, JsonValue};

fn s(text: &str) -> String {
    text.to_string()
}

fn member(key: &str, value: JsonValue) -> JsonMember {
    JsonMember { key: s(key), value }
}

fn text(value: &str) -> JsonValue {
    JsonValue::Text(s(value))
}

fn mention_of_type(ty: JsonValue, page_id: JsonValue) -> JsonValue {
    JsonValue::Object(vec![
        member("insert", text("$")),
        member(
            "attributes",
            JsonValue::Object(vec![
                member("bold", JsonValue::Bool(true)),
                member("mention", JsonValue::Object(vec![member("type", ty), member("page_id", page_id)])),
            ]),
        ),
    ])
}

fn mention(page_id: &str) -> JsonValue {
    mention_of_type(text("page"), text(page_id))
}

fn block(id: &str, data: Vec<JsonMember>) -> Block {
    Block { id: s(id), ty: s("paragraph"), data }
}

fn sample() -> DocumentData {
    DocumentData {
        blocks: vec![
            block("b1", vec![
                member("level", JsonValue::Number(s("2"))),
                member("delta", JsonValue::Array(vec![mention("p1"), text("plain"), mention("p2")])),
            ]),
            block("b2", vec![member("delta", text("no array"))]),
            block("b3", vec![
                member("other", JsonValue::Array(vec![mention("hidden")])),
                member("delta", JsonValue::Array(vec![
                    mention_of_type(text("date"), text("p3")),
                    mention_of_type(text("page"), JsonValue::Number(s("4"))),
                    mention("p1"),
                ])),
            ]),
        ],
        text_map: None,
    }
}

#[test]
fn mention_of_reads_page_mentions_only() {
    assert_eq!(mention_of(&mention("p")), Some(&s("p")));
    assert_eq!(mention_of(&mention_of_type(text("date"), text("p"))), None);
    assert_eq!(mention_of(&mention_of_type(JsonValue::Null, text("p"))), None);
    assert_eq!(mention_of(&mention_of_type(text("page"), JsonValue::Null)), None);
    assert_eq!(mention_of(&text("p")), None);
    assert_eq!(mention_of(&JsonValue::Object(vec![member("attributes", text("x"))])), None);
    assert_eq!(
        mention_of(&JsonValue::Object(vec![member("attributes", JsonValue::Object(vec![]))])),
        None
    );
}

#[test]
fn page_mentions_come_in_the_order_of_the_document() {
    assert_eq!(page_mentions(&sample()), vec![s("p1"), s("p2"), s("p1")]);
    assert!(page_mentions(&DocumentData { blocks: vec![], text_map: None }).is_empty());
}

#[test]
fn rewrite_page_mentions_replaces_what_has_a_new_identifier() {
    let mut ids = IdRewriter::new();
    ids.record(&s("p1"), &s("n1"));
    ids.tombstone(&s("p2"));
    ids.record(&s("hidden"), &s("never"));
    ids.record(&s("p3"), &s("never"));
    let mut doc = sample();
    rewrite_page_mentions(&mut doc, &ids);
    let mut expected = sample();
    expected.blocks[0].data[1].value =
        JsonValue::Array(vec![mention("n1"), text("plain"), mention("p2")]);
    expected.blocks[2].data[1].value = JsonValue::Array(vec![
        mention_of_type(text("date"), text("p3")),
        mention_of_type(text("page"), JsonValue::Number(s("4"))),
        mention("n1"),
    ]);
    assert_eq!(doc, expected);
}

#[test]
fn rewrite_page_mentions_prints_the_arrays_of_the_text_map_anew() {
    let mut ids = IdRewriter::new();
    ids.record(&s("p1"), &s("n1"));
    let mut doc = DocumentData {
        blocks: vec![],
        text_map: Some(vec![
            TextEntry {
                key: s("k1"),
                value: s(r#"[{"insert": "a"}, {"attributes": {"mention": {"type": "page", "page_id": "p1"}}}]"#),
            },
            TextEntry { key: s("k2"), value: s(r#"{"attributes": {"mention": {"type": "page", "page_id": "p1"}}}"#) },
            TextEntry { key: s("k3"), value: s("") },
            TextEntry { key: s("k4"), value: s("[]") },
        ]),
    };
    rewrite_page_mentions(&mut doc, &ids);
    let text_map = doc.text_map.unwrap();
    assert_eq!(
        text_map[0].value,
        r#"[{"insert":"a"},{"attributes":{"mention":{"page_id":"n1","type":"page"}}}]"#
    );
    assert_eq!(text_map[0].key, "k1");
    assert_eq!(text_map[1].value, r#"{"attributes": {"mention": {"type": "page", "page_id": "p1"}}}"#);
    assert_eq!(text_map[2].value, "");
    assert_eq!(text_map[3].value, "[]");
}

#[test]
fn clone_document_copies_blocks_and_text_map() {
    let mut doc = sample();
    doc.text_map = Some(vec![TextEntry { key: s("k"), value: s("v") }]);
    assert_eq!(clone_document(&doc), doc);
    assert_eq!(clone_document(&sample()), sample());
}

#[test]
fn grid_board_and_calendar_blocks_show_databases() {
    for ty in ["grid", "board", "calendar"] {
        assert!(shows_database(&s(ty)));
    }
    for ty in ["paragraph", "Grid", "", "table"] {
        assert!(!shows_database(&s(ty)));
    }
}

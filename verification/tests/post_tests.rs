use itehax_website::error::ContentError;
use itehax_website::metadata::metadata_from_fields;
use itehax_website::metadata::HeaderField;
use itehax_website::metadata::HeaderFields;
use itehax_website::order::sort_newest_first;
use itehax_website::posts::dropped_documents;
use itehax_website::posts::find_post;
use itehax_website::posts::is_document_file;
use itehax_website::posts::parse_post_content;
use itehax_website::posts::process_posts;
use itehax_website::posts::sort_posts;
use itehax_website::posts::Post;
use itehax_website::posts::PostType;

fn document(title: &str, date: &str) -> String {
    format!(
        "---\nimage_path: /images/{}.png\ntitle: {}\ndate: {}\ndescription: About {}\nexternal_link: https://example.org/{}\n---\nBody of {}.\n",
        title, title, date, title, title, title
    )
}

fn text(value: &str) -> HeaderField {
    HeaderField::Text(value.to_string())
}

fn complete_fields() -> HeaderFields {
    HeaderFields {
        image_path: text("/a.png"),
        title: text("A Title"),
        date: text("2024-02-03"),
        description: text("desc"),
        external_link: text("https://example.org"),
        seo_title: HeaderField::Missing,
        seo_description: HeaderField::Null,
        seo_image: text("/seo.png"),
        seo_keywords: HeaderField::Missing,
        tags: HeaderField::List(vec![Some("rust".to_string()), Some("web".to_string())]),
    }
}

#[test]
fn full_header_is_read() {
    let content = "---\nimage_path: /img/a.png\ntitle: \"Hello, World\"\ndate: 2024-03-09\ndescription: A first post\nexternal_link: https://example.org/a\nseo_title: Hello SEO\nseo_keywords: rust, web\ntags:\n  - rust\n  - web\nunknown_key: ignored\n---\n## Intro\n\nText.\n";
    let post = parse_post_content(content).unwrap();
    assert_eq!(post.metadata.image_path, "/img/a.png");
    assert_eq!(post.metadata.title, "Hello, World");
    assert_eq!(post.metadata.date, "2024-03-09");
    assert_eq!(post.metadata.description, "A first post");
    assert_eq!(post.metadata.external_link, "https://example.org/a");
    assert_eq!(post.metadata.seo_title, Some("Hello SEO".to_string()));
    assert_eq!(post.metadata.seo_description, None);
    assert_eq!(post.metadata.seo_image, None);
    assert_eq!(post.metadata.seo_keywords, Some("rust, web".to_string()));
    assert_eq!(post.metadata.tags, vec!["rust".to_string(), "web".to_string()]);
    assert_eq!(post.html, "<h2 id=\"intro\">Intro</h2>\n<p>Text.</p>\n");
    assert_eq!(post.toc.len(), 1);
    assert_eq!(post.toc[0].id, "intro");
    assert_eq!(post.metadata.create_href(), "hello-world");
}

#[test]
fn body_is_what_follows_the_header() {
    let post = parse_post_content(&document("Solo", "2024-01-01")).unwrap();
    assert_eq!(post.html, "<p>Body of Solo.</p>\n");
    assert!(post.metadata.tags.is_empty());
    assert!(post.toc.is_empty());
}

#[test]
fn callouts_of_the_body_are_rewritten() {
    let content = format!("{}\n> [!code main.rs]\n\n```rust\nfn main() {{}}\n```\n", document("Panels", "2024-01-01"));
    let post = parse_post_content(&content).unwrap();
    assert_eq!(
        post.html,
        "<p>Body of Panels.</p>\n<div class=\"code-panel\"><div class=\"code-panel-title\">main.rs</div><pre><code class=\"language-rust\">fn main() {}\n</code></pre></div>\n"
    );
}

#[test]
fn document_without_header_is_malformed() {
    assert_eq!(parse_post_content("# Just a body\n").unwrap_err(), ContentError::MalformedDocument);
    assert_eq!(parse_post_content("").unwrap_err(), ContentError::MalformedDocument);
    assert_eq!(parse_post_content("---\n---\nbody\n").unwrap_err(), ContentError::MalformedDocument);
}

#[test]
fn document_with_missing_required_field_is_malformed() {
    let content = "---\nimage_path: /a.png\ntitle: No Date\ndescription: d\nexternal_link: https://example.org\n---\nbody\n";
    assert_eq!(parse_post_content(content).unwrap_err(), ContentError::MalformedDocument);
}

#[test]
fn document_with_unreadable_header_is_malformed() {
    let content = "---\ntitle: [unclosed\n  date: : :\n---\nbody\n";
    assert_eq!(parse_post_content(content).unwrap_err(), ContentError::MalformedDocument);
}

#[test]
fn field_of_the_wrong_kind_is_malformed() {
    let content = "---\nimage_path: /a.png\ntitle: 2024\ndate: 2024-01-01\ndescription: d\nexternal_link: https://example.org\n---\nbody\n";
    assert_eq!(parse_post_content(content).unwrap_err(), ContentError::MalformedDocument);
    let tags = "---\nimage_path: /a.png\ntitle: T\ndate: 2024-01-01\ndescription: d\nexternal_link: https://example.org\ntags: rust\n---\nbody\n";
    assert_eq!(parse_post_content(tags).unwrap_err(), ContentError::MalformedDocument);
}

#[test]
fn metadata_from_complete_fields() {
    let metadata = metadata_from_fields(complete_fields()).unwrap();
    assert_eq!(metadata.title, "A Title");
    assert_eq!(metadata.date, "2024-02-03");
    assert_eq!(metadata.seo_title, None);
    assert_eq!(metadata.seo_description, None);
    assert_eq!(metadata.seo_image, Some("/seo.png".to_string()));
    assert_eq!(metadata.tags, vec!["rust".to_string(), "web".to_string()]);
}

#[test]
fn metadata_needs_every_required_field() {
    let mut fields = complete_fields();
    fields.title = HeaderField::Missing;
    assert_eq!(metadata_from_fields(fields).unwrap_err(), ContentError::MalformedDocument);
    let mut fields = complete_fields();
    fields.date = HeaderField::Null;
    assert_eq!(metadata_from_fields(fields).unwrap_err(), ContentError::MalformedDocument);
    let mut fields = complete_fields();
    fields.image_path = HeaderField::Other;
    assert_eq!(metadata_from_fields(fields).unwrap_err(), ContentError::MalformedDocument);
    let mut fields = complete_fields();
    fields.description = HeaderField::List(Vec::new());
    assert_eq!(metadata_from_fields(fields).unwrap_err(), ContentError::MalformedDocument);
    let mut fields = complete_fields();
    fields.external_link = HeaderField::Missing;
    assert_eq!(metadata_from_fields(fields).unwrap_err(), ContentError::MalformedDocument);
}

#[test]
fn metadata_rejects_optional_fields_of_the_wrong_kind() {
    let mut fields = complete_fields();
    fields.seo_title = HeaderField::Other;
    assert_eq!(metadata_from_fields(fields).unwrap_err(), ContentError::MalformedDocument);
    let mut fields = complete_fields();
    fields.tags = HeaderField::List(vec![Some("rust".to_string()), None]);
    assert_eq!(metadata_from_fields(fields).unwrap_err(), ContentError::MalformedDocument);
    let mut fields = complete_fields();
    fields.tags = text("rust");
    assert_eq!(metadata_from_fields(fields).unwrap_err(), ContentError::MalformedDocument);
}

#[test]
fn metadata_without_tags_has_none() {
    let mut fields = complete_fields();
    fields.tags = HeaderField::Missing;
    assert!(metadata_from_fields(fields).unwrap().tags.is_empty());
    let mut fields = complete_fields();
    fields.tags = HeaderField::Null;
    assert!(metadata_from_fields(fields).unwrap().tags.is_empty());
}

fn titles(posts: &Vec<Post>) -> Vec<String> {
    posts.iter().map(|p| p.metadata.title.clone()).collect()
}

#[test]
fn collection_is_sorted_newest_first() {
    let contents = vec![
        document("January", "2024-01-01"),
        document("June", "2024-06-15"),
        document("December", "2023-12-31"),
    ];
    let posts = process_posts(&contents).unwrap();
    let dates: Vec<String> = posts.iter().map(|p| p.metadata.date.clone()).collect();
    assert_eq!(dates, vec!["2024-06-15", "2024-01-01", "2023-12-31"]);
}

#[test]
fn malformed_document_does_not_take_the_others_down() {
    let contents = vec![
        document("First", "2024-01-01"),
        "---\ntitle: Broken\n---\nno date, no description\n".to_string(),
        document("Second", "2024-02-01"),
    ];
    let posts = process_posts(&contents).unwrap();
    assert_eq!(titles(&posts), vec!["Second", "First"]);
}

#[test]
fn posts_of_one_day_keep_their_order() {
    let contents = vec![
        document("A", "2024-05-05"),
        document("B", "2024-07-01"),
        document("C", "2024-05-05"),
        document("D", "2024-05-05"),
        document("E", "2020-01-01"),
    ];
    let posts = process_posts(&contents).unwrap();
    assert_eq!(titles(&posts), vec!["B", "A", "C", "D", "E"]);
}

#[test]
fn unreadable_date_fails_the_category() {
    let contents = vec![document("Good", "2024-01-01"), document("Bad", "2024-13-40")];
    assert_eq!(process_posts(&contents).unwrap_err(), ContentError::InvalidDate);
    let worded = vec![document("Worded", "yesterday")];
    assert_eq!(process_posts(&worded).unwrap_err(), ContentError::InvalidDate);
}

#[test]
fn empty_category_is_an_empty_collection() {
    assert!(process_posts(&Vec::new()).unwrap().is_empty());
    assert!(sort_posts(Vec::new()).unwrap().is_empty());
}

#[test]
fn sort_posts_orders_by_date() {
    let posts = vec![
        parse_post_content(&document("Old", "1999-12-31")).unwrap(),
        parse_post_content(&document("New", "2025-01-01")).unwrap(),
        parse_post_content(&document("Mid", "2010-06-06")).unwrap(),
    ];
    let sorted = sort_posts(posts).unwrap();
    assert_eq!(titles(&sorted), vec!["New", "Mid", "Old"]);
}

#[test]
fn sort_by_keys_is_stable_and_descending() {
    let items = vec!["a", "b", "c", "d", "e", "f"];
    let keys = vec![3, 7, 3, -1, 7, 3];
    assert_eq!(sort_newest_first(items, &keys), vec!["b", "e", "a", "c", "f", "d"]);
    let none: Vec<u8> = Vec::new();
    assert_eq!(sort_newest_first(none, &Vec::new()), Vec::<u8>::new());
    assert_eq!(sort_newest_first(vec![1u8], &vec![i32::MIN]), vec![1u8]);
    assert_eq!(sort_newest_first(vec![1u8, 2u8], &vec![i32::MIN, i32::MAX]), vec![2u8, 1u8]);
}

#[test]
fn post_is_found_by_its_slug() {
    let posts = process_posts(&vec![
        document("First Post", "2024-01-01"),
        document("Second Post", "2024-02-01"),
    ])
    .unwrap();
    assert_eq!(find_post(&posts, "first-post").unwrap().metadata.title, "First Post");
    assert_eq!(find_post(&posts, "second-post").unwrap().metadata.title, "Second Post");
    assert_eq!(find_post(&posts, "third-post").unwrap_err(), ContentError::DocumentNotFound);
    assert_eq!(find_post(&posts, "First Post").unwrap_err(), ContentError::DocumentNotFound);
    assert_eq!(find_post(&Vec::new(), "first-post").unwrap_err(), ContentError::DocumentNotFound);
}

#[test]
fn category_paths_and_addresses() {
    assert_eq!(PostType::Blog.path(), "blog");
    assert_eq!(PostType::Writing.path(), "writing");
    assert_eq!(PostType::Project.path(), "projects");
    assert_eq!(PostType::Book.path(), "books");
    assert_eq!(PostType::Notes.path(), "notes");
    assert_eq!(PostType::Book.directory(), "posts/books");
    let post = parse_post_content(&document("My First Post", "2024-01-01")).unwrap();
    assert_eq!(PostType::Blog.href(&post.metadata), "/blog/my-first-post");
    assert_eq!(PostType::Project.href(&post.metadata), "/projects/my-first-post");
}

#[test]
fn error_messages() {
    assert_eq!(ContentError::MalformedDocument.message(), "malformed document header");
    assert_eq!(ContentError::InvalidDate.message(), "invalid publication date");
    assert_eq!(ContentError::DirectoryUnavailable.message(), "content directory unavailable");
    assert_eq!(ContentError::DocumentNotFound.message(), "document not found");
}

#[test]
fn seo_tags_fall_back_to_the_post() {
    let post = parse_post_content(&document("Plain Post", "2024-01-01")).unwrap();
    let tags = itehax_website::seo::seo_tags(&post.metadata, PostType::Blog);
    assert_eq!(tags.title, "Plain Post | Edoardo D'Errico");
    assert_eq!(tags.description, "About Plain Post");
    assert_eq!(tags.image, "https://edoardoderrico.com/images/Plain Post.png");
    assert_eq!(tags.url, "https://edoardoderrico.com/blog/plain-post");
    assert_eq!(tags.keywords, None);
}

#[test]
fn seo_tags_prefer_the_seo_fields() {
    let mut fields = complete_fields();
    fields.seo_title = text("Custom Title");
    fields.seo_description = text("Custom description");
    fields.seo_keywords = text("a, b");
    let metadata = metadata_from_fields(fields).unwrap();
    let tags = itehax_website::seo::seo_tags(&metadata, PostType::Writing);
    assert_eq!(tags.title, "Custom Title");
    assert_eq!(tags.description, "Custom description");
    assert_eq!(tags.image, "/seo.png");
    assert_eq!(tags.url, "https://edoardoderrico.com/writing/a-title");
    assert_eq!(tags.keywords, Some("a, b".to_string()));
}

#[test]
fn cards_of_projects_and_notes_lead_outside() {
    let metadata = metadata_from_fields(complete_fields()).unwrap();
    assert_eq!(itehax_website::seo::card_href(&metadata, PostType::Project), "https://example.org");
    assert_eq!(itehax_website::seo::card_href(&metadata, PostType::Notes), "https://example.org");
    assert_eq!(itehax_website::seo::card_href(&metadata, PostType::Blog), "/blog/a-title");
    assert_eq!(itehax_website::seo::card_href(&metadata, PostType::Book), "/books/a-title");
    assert_eq!(itehax_website::seo::card_href(&metadata, PostType::Writing), "/writing/a-title");
}

#[test]
fn rule_in_the_body_is_no_header_delimiter() {
    let content = "---\nimage_path: /i.png\ntitle: Rules\ndate: 2024-01-01\ndescription: d\nexternal_link: https://example.org\n---\nabove\n\n---\n\nbelow\n";
    let post = parse_post_content(content).unwrap();
    assert_eq!(post.html, "<p>above</p>\n<hr />\n<p>below</p>\n");
}

#[test]
fn header_without_closing_delimiter_is_malformed() {
    let content = "---\nimage_path: /i.png\ntitle: Open\ndate: 2024-01-01\ndescription: d\nexternal_link: https://example.org\nbody\n";
    assert_eq!(parse_post_content(content).unwrap_err(), ContentError::MalformedDocument);
}

#[test]
fn header_that_is_no_mapping_is_malformed() {
    assert_eq!(parse_post_content("---\n- a\n- b\n---\nbody\n").unwrap_err(), ContentError::MalformedDocument);
    assert_eq!(parse_post_content("---\njust text\n---\nbody\n").unwrap_err(), ContentError::MalformedDocument);
}

#[test]
fn header_with_windows_line_ends_is_read() {
    let content = "---\r\nimage_path: /i.png\r\ntitle: Windows\r\ndate: 2024-01-01\r\ndescription: d\r\nexternal_link: https://example.org\r\n---\r\nbody\r\n";
    let post = parse_post_content(content).unwrap();
    assert_eq!(post.metadata.title, "Windows");
    assert_eq!(post.html, "<p>body</p>\n");
}

#[test]
fn empty_tag_list_and_quoted_values() {
    let content = "---\nimage_path: \"/i.png\"\ntitle: 'Quoted: yes'\ndate: \"2024-01-01\"\ndescription: \"\"\nexternal_link: ''\ntags: []\nseo_title:\n---\nbody\n";
    let post = parse_post_content(content).unwrap();
    assert_eq!(post.metadata.title, "Quoted: yes");
    assert_eq!(post.metadata.description, "");
    assert_eq!(post.metadata.external_link, "");
    assert!(post.metadata.tags.is_empty());
    assert_eq!(post.metadata.seo_title, None);
}

#[test]
fn dates_are_ordered_as_dates() {
    let contents = vec![
        document("Leap", "2024-02-29"),
        document("Ancient", "0999-12-31"),
        document("Next", "2024-03-01"),
    ];
    assert_eq!(titles(&process_posts(&contents).unwrap()), vec!["Next", "Leap", "Ancient"]);
    let short = vec![
        document("Old", "999-01-01"),
        document("Leap", "2024-02-29"),
        document("Short", "2024-3-1"),
    ];
    assert_eq!(titles(&process_posts(&short).unwrap()), vec!["Short", "Leap", "Old"]);
}

#[test]
fn dates_that_are_no_calendar_dates() {
    for date in ["2023-02-29", "12024-01-01", "2024-01-01T10:00:00", "2024-00-10", "2024/01/01", "01-02-2024x"] {
        assert_eq!(
            process_posts(&vec![document("Bad", date)]).unwrap_err(),
            ContentError::InvalidDate
        );
    }
}

#[test]
fn documents_are_the_markdown_files() {
    assert!(is_document_file("first-post.md"));
    assert!(is_document_file("a.b.md"));
    assert!(is_document_file("..md"));
    assert!(!is_document_file(".md"));
    assert!(!is_document_file("md"));
    assert!(!is_document_file(""));
    assert!(!is_document_file("notes.txt"));
    assert!(!is_document_file("post.MD"));
    assert!(!is_document_file("post.md.bak"));
    assert!(!is_document_file("postmd"));
}

#[test]
fn dropped_documents_are_named_by_index() {
    let contents = vec![
        "no header".to_string(),
        document("First", "2024-01-01"),
        "---\ntitle: Broken\n---\nbody\n".to_string(),
        document("Undated", "not a date"),
        String::new(),
    ];
    assert_eq!(dropped_documents(&contents), vec![0, 2, 4]);
    assert!(dropped_documents(&vec![document("Fine", "2024-01-01")]).is_empty());
    assert!(dropped_documents(&Vec::new()).is_empty());
}

use portfolio_cms::controllers::api::blog;
use portfolio_cms::controllers::api::portfolio;
use portfolio_cms::controllers::api::{
    bounded, home_image_upload, html, not_cleared, optional_html, optional_text, reference,
    require,
    required_text, stale_images, update_home_informations, update_settings, Failure, Kind,
    Operation, Phase, Rollback, StoredImage, UpdateParametersForm,
};
use portfolio_cms::services::written;

fn checked(kind: Kind) -> Operation {
    let mut operation = Operation::new(kind);
    assert_eq!(operation.authorize(true), Ok(()));
    if kind != Kind::Create {
        assert_eq!(operation.find(true), Ok(()));
    }
    if kind != Kind::Delete {
        assert_eq!(operation.validate(Ok(7)), Ok(7));
    }
    operation
}

fn writing() -> Operation {
    let mut operation = checked(Kind::Update);
    assert!(operation.begin());
    operation
}

fn finish(operation: &mut Operation) -> Vec<String> {
    assert_eq!(operation.persist(Outcome::Updated), Ok(()));
    operation.commit()
}

fn storage(remove: Vec<&str>) -> Rollback {
    Rollback { failure: Failure::Storage, remove: remove.into_iter().map(String::from).collect() }
}
use portfolio_cms::services::Outcome;
use portfolio_cms::services::projects::assets::{get_available_slots, placements};
use portfolio_cms::services::projects::Asset;
use portfolio_cms::services::{Statement, Update};
use portfolio_cms::utils::html::{entity_uri, Markup};
use portfolio_cms::utils::image::UploadRequest;
use portfolio_cms::utils::patch::{FieldValue, Patch};

fn request(name: &str, mobile: Option<(u32, u32)>, desktop: Option<(u32, u32)>, webp: bool) -> UploadRequest {
    UploadRequest { name: name.to_string(), max_mobile: mobile, max_desktop: desktop, with_webp: webp }
}

fn text(value: &str) -> FieldValue {
    FieldValue::Text(value.to_string())
}

fn image(id: &str, path: &str) -> StoredImage {
    StoredImage { id: id.to_string(), path: path.to_string() }
}

fn blog_category() -> blog::UpdateCategoryForm {
    blog::UpdateCategoryForm {
        name: Patch::Undefined,
        description: Patch::Undefined,
        is_visible: Patch::Undefined,
        is_seo: Patch::Undefined,
        order: Patch::Undefined,
    }
}

fn article_update() -> blog::UpdateArticleForm {
    blog::UpdateArticleForm {
        cover: Patch::Undefined,
        category_id: Patch::Undefined,
        title: Patch::Undefined,
        description: Patch::Undefined,
        content: Patch::Undefined,
        is_published: Patch::Undefined,
        is_seo: Patch::Undefined,
        pictures: Patch::Undefined,
    }
}

fn project_update() -> portfolio::ProjectUpdateForm {
    portfolio::ProjectUpdateForm {
        name: Patch::Undefined,
        description: Patch::Undefined,
        content: Patch::Undefined,
        categories: Patch::Undefined,
        assets: Patch::Undefined,
        files: None,
    }
}

#[test]
fn renaming_a_category_recomputes_its_uri() {
    let mut form = blog_category();
    form.name = Patch::Value("  New Name ".to_string());
    let fields = blog::update_category(7, form).unwrap();
    assert_eq!(fields.len(), 2);
    assert_eq!(fields.get("name"), Some(&text("New Name")));
    assert_eq!(fields.get("uri"), Some(&text("new-name-7")));
    let plan = portfolio_cms::services::blog::categories::partial_update(7, &fields);
    assert_eq!(
        plan,
        Update::Execute(Statement {
            text: "UPDATE blog_categories SET \"name\" = $1, \"uri\" = $2 WHERE id = $3"
                .to_string(),
            params: vec![text("New Name"), text("new-name-7"), FieldValue::Int(7)],
        })
    );
}

#[test]
fn a_category_update_without_a_name_keeps_the_uri() {
    let mut form = blog_category();
    form.order = Patch::Value(2);
    form.is_seo = Patch::Value(None);
    form.is_visible = Patch::Value(Some(true));
    form.description = Patch::Null;
    let fields = blog::update_category(7, form).unwrap();
    assert_eq!(fields.len(), 4);
    assert_eq!(fields.get("uri"), None);
    assert_eq!(fields.get("order"), Some(&FieldValue::Int(2)));
    assert_eq!(fields.get("is_seo"), Some(&FieldValue::Null));
    assert_eq!(fields.get("is_visible"), Some(&FieldValue::Bool(true)));
    assert_eq!(fields.get("description"), Some(&FieldValue::Null));
}

#[test]
fn an_empty_category_update_writes_nothing() {
    let fields = blog::update_category(7, blog_category()).unwrap();
    assert!(fields.is_empty());
    assert_eq!(
        portfolio_cms::services::blog::categories::partial_update(7, &fields),
        Update::NothingToDo
    );
}

#[test]
fn a_category_name_cannot_be_cleared_or_emptied() {
    let mut form = blog_category();
    form.name = Patch::Null;
    assert_eq!(blog::update_category(1, form).err(), Some(Failure::Validation));
    let mut form = blog_category();
    form.name = Patch::Value("   ".to_string());
    assert_eq!(blog::update_category(1, form).err(), Some(Failure::Validation));
    let mut form = blog_category();
    form.name = Patch::Value("x".repeat(61));
    assert_eq!(blog::update_category(1, form).err(), Some(Failure::Validation));
    let mut form = blog_category();
    form.name = Patch::Value("x".repeat(60));
    assert!(blog::update_category(1, form).is_ok());
}

#[test]
fn a_category_description_is_sanitized() {
    let mut form = blog_category();
    form.description =
        Patch::Value(Some(" <b>bold</b><script>alert(1)</script><i>it</i> ".to_string()));
    let fields = blog::update_category(1, form).unwrap();
    assert_eq!(fields.get("description"), Some(&text("<b>bold</b>it")));
    let mut form = blog_category();
    form.description = Patch::Value(Some("d".repeat(321)));
    assert_eq!(blog::update_category(1, form).err(), Some(Failure::Validation));
}

#[test]
fn length_bounds_count_bytes() {
    assert_eq!(bounded("é".to_string(), 0, 1), Err(Failure::Validation));
    assert_eq!(bounded("é".to_string(), 2, 2), Ok("é".to_string()));
    assert_eq!(bounded(String::new(), 1, 5), Err(Failure::Validation));
    assert_eq!(bounded(String::new(), 0, 0), Ok(String::new()));
}

#[test]
fn texts_are_trimmed_of_unicode_whitespace() {
    let p = Patch::Value("\u{2003}\t name \u{a0}\n".to_string());
    assert_eq!(required_text(&p, 1, 10), Ok(Patch::Value("name".to_string())));
    assert_eq!(required_text(&Patch::Undefined, 1, 10), Ok(Patch::Undefined));
    assert_eq!(required_text(&Patch::Null, 1, 10), Err(Failure::Validation));
    let inner = Patch::Value(Some(" a b ".to_string()));
    assert_eq!(optional_text(&inner, 0, 3), Ok(Patch::Value(Some("a b".to_string()))));
    assert_eq!(optional_text(&inner, 0, 2), Err(Failure::Validation));
    assert_eq!(optional_text(&Patch::Null, 5, 6), Ok(Patch::Null));
    assert_eq!(optional_text(&Patch::Value(None), 5, 6), Ok(Patch::Value(None)));
}

#[test]
fn html_checks_follow_the_allow_lists() {
    let body = Patch::Value(" <p>a</p><h2>t</h2><img src=x> ".to_string());
    assert_eq!(
        html(&body, Markup::Article, 0, 100),
        Ok(Patch::Value("<p>a</p>t".to_string()))
    );
    assert_eq!(
        html(&body, Markup::Project, 0, 100),
        Ok(Patch::Value("<p>a</p><h2>t</h2>".to_string()))
    );
    assert_eq!(html(&body, Markup::Inline, 0, 1), Err(Failure::Validation));
    assert_eq!(html(&Patch::Null, Markup::Inline, 0, 100), Err(Failure::Validation));
    assert_eq!(html(&Patch::Undefined, Markup::Inline, 1, 1), Ok(Patch::Undefined));
    let empty = Patch::Value(Some("<script>x</script>".to_string()));
    assert_eq!(optional_html(&empty, Markup::Inline, 1, 10), Err(Failure::Validation));
    assert_eq!(
        optional_html(&empty, Markup::Inline, 0, 10),
        Ok(Patch::Value(Some(String::new())))
    );
}

#[test]
fn markup_is_sanitized_by_its_allow_list() {
    let text = "<b>b</b><ul><li>l</li></ul><h3>h</h3><script>s</script><style>t</style>";
    assert_eq!(Markup::Inline.sanitize(text), "<b>b</b>lh");
    assert_eq!(Markup::Article.sanitize(text), "<b>b</b><ul><li>l</li></ul>h");
    assert_eq!(Markup::Project.sanitize(text), "<b>b</b><ul><li>l</li></ul><h3>h</h3>");
    assert_eq!(Markup::Inline.sanitize("plain"), "plain");
}

#[test]
fn uris_are_slugs_of_name_and_id() {
    assert_eq!(entity_uri("Les aventures de Lulu", 3), "les-aventures-de-lulu-3");
    assert_eq!(entity_uri("Été & hiver", 12), "ete-hiver-12");
    assert_eq!(entity_uri("x", -4), "x-4");
}

#[test]
fn new_category_is_trimmed() {
    let form = blog::NewCategoryForm {
        name: " Print ".to_string(),
        description: Some("  about ".to_string()),
        is_visible: Some(true),
        is_seo: None,
    };
    assert_eq!(
        blog::insert_category(form),
        blog::NewCategoryForm {
            name: "Print".to_string(),
            description: Some("about".to_string()),
            is_visible: Some(true),
            is_seo: None,
        }
    );
}

#[test]
fn a_new_category_is_completed_with_its_uri() {
    let fields = blog::category_insert_fields(entity_uri("Print", 11));
    assert_eq!(fields.len(), 1);
    assert_eq!(fields.get("uri"), Some(&text("print-11")));
}

#[test]
fn stale_images_are_those_the_body_no_longer_mentions() {
    let images = vec![image("1", "a.png"), image("2", "b.jpg")];
    let stale = stale_images("<p>intro [[1]] end</p>", &images);
    assert_eq!(stale, vec![image("2", "b.jpg")]);
    let mut operation = writing();
    for gone in &stale {
        assert!(operation.doom(&gone.path));
    }
    assert_eq!(
        finish(&mut operation),
        vec![
            "./uploads/mobile/b.jpg",
            "./uploads/mobile/b.webp",
            "./uploads/b.jpg",
            "./uploads/b.webp",
        ]
    );
    assert!(stale_images("[[1]] [[2]]", &images).is_empty());
    assert_eq!(stale_images("", &images), images);
    assert_eq!(stale_images("2[[1]]", &images), vec![image("2", "b.jpg")]);
    assert_eq!(stale_images("1 and 2, [1], [[ 2 ]]", &images), images);
    assert_eq!(stale_images("[[12]][[21]]", &images), images);
}

#[test]
fn stale_images_are_detached_inside_the_transaction_only() {
    let images = vec![image("1", "a.png"), image("2", "b.jpg")];
    let mut form = article_update();
    form.content = Patch::Value("<p>[[1]]</p>".to_string());
    let mut operation = checked(Kind::Update);
    assert!(blog::detach_stale(&mut operation, &form, &images).is_empty());
    assert!(operation.begin());
    assert_eq!(blog::detach_stale(&mut operation, &form, &images), vec!["2"]);
    assert_eq!(
        finish(&mut operation),
        vec![
            "./uploads/mobile/b.jpg",
            "./uploads/mobile/b.webp",
            "./uploads/b.jpg",
            "./uploads/b.webp",
        ]
    );
    let mut kept = writing();
    assert!(blog::detach_stale(&mut kept, &article_update(), &images).is_empty());
    assert!(finish(&mut kept).is_empty());
}

#[test]
fn a_bare_id_in_the_body_embeds_nothing() {
    let images = vec![image("1", "a.png"), image("2", "b.jpg")];
    let mut form = article_update();
    form.content = Patch::Value("2[[1]]".to_string());
    assert_eq!(form.stale(&images), vec![image("2", "b.jpg")]);
    let mut operation = writing();
    assert_eq!(blog::detach_stale(&mut operation, &form, &images), vec!["2"]);
    assert_eq!(
        finish(&mut operation),
        vec![
            "./uploads/mobile/b.jpg",
            "./uploads/mobile/b.webp",
            "./uploads/b.jpg",
            "./uploads/b.webp",
        ]
    );
}

#[test]
fn an_update_without_a_body_makes_nothing_stale() {
    let images = vec![image("1", "a.png")];
    let form = article_update();
    assert!(form.stale(&images).is_empty());
    let mut form = article_update();
    form.content = Patch::Value("nothing".to_string());
    assert_eq!(form.stale(&images), images);
}

#[test]
fn deleting_an_article_removes_sixteen_files_after_the_commit() {
    let images = vec![image("1", "a.png"), image("2", "b.jpg"), image("3", "c.v2.jpg")];
    let mut operation = checked(Kind::Delete);
    assert!(!blog::delete_article(&mut operation, "cover_9.png", &images));
    assert!(operation.commit().is_empty());
    assert!(operation.begin());
    assert!(blog::delete_article(&mut operation, "cover_9.png", &images));
    assert_eq!(operation.current(), Phase::Writing);
    assert!(operation.commit().is_empty());
    assert_eq!(operation.current(), Phase::Writing);
    assert_eq!(operation.persist(written(1)), Ok(()));
    let remove = operation.commit();
    assert_eq!(remove.len(), 16);
    assert_eq!(
        remove,
        vec![
            "./uploads/mobile/cover_9.png",
            "./uploads/mobile/cover_9.webp",
            "./uploads/cover_9.png",
            "./uploads/cover_9.webp",
            "./uploads/mobile/a.png",
            "./uploads/mobile/a.webp",
            "./uploads/a.png",
            "./uploads/a.webp",
            "./uploads/mobile/b.jpg",
            "./uploads/mobile/b.webp",
            "./uploads/b.jpg",
            "./uploads/b.webp",
            "./uploads/mobile/c.v2.jpg",
            "./uploads/mobile/c.webp",
            "./uploads/c.v2.jpg",
            "./uploads/c.webp",
        ]
    );
    assert_eq!(operation.current(), Phase::Committed);
}

#[test]
fn a_failed_delete_removes_no_file() {
    let images = vec![image("1", "a.png")];
    let mut operation = writing();
    assert!(blog::delete_article(&mut operation, "cover_9.png", &images));
    assert_eq!(operation.persist(written(0)), Err(Failure::Conflict));
    assert_eq!(operation.current(), Phase::Writing);
    assert!(operation.abort().is_empty());
    assert!(operation.commit().is_empty());
}

#[test]
fn deleting_a_project_removes_the_files_of_each_asset() {
    let assets = vec![
        Asset { id: 1, path: "one.png".to_string() },
        Asset { id: 2, path: "two.jpg".to_string() },
    ];
    let mut operation = writing();
    assert!(portfolio::delete_project(&mut operation, &assets));
    assert_eq!(
        finish(&mut operation),
        vec![
            "./uploads/mobile/one.png",
            "./uploads/mobile/one.webp",
            "./uploads/one.png",
            "./uploads/one.webp",
            "./uploads/mobile/two.jpg",
            "./uploads/mobile/two.webp",
            "./uploads/two.jpg",
            "./uploads/two.webp",
        ]
    );
    let mut empty = writing();
    assert!(portfolio::delete_project(&mut empty, &Vec::new()));
    assert!(finish(&mut empty).is_empty());
}

#[test]
fn several_files_are_scheduled_at_once() {
    let mut operation = checked(Kind::Update);
    assert!(!operation.doom_all(&vec!["x.png".to_string()]));
    assert!(operation.begin());
    assert!(operation.doom("first.jpg"));
    assert!(operation.doom_all(&vec!["x.png".to_string(), "y.jpg".to_string()]));
    let remove = finish(&mut operation);
    assert_eq!(remove.len(), 12);
    assert_eq!(remove[0], "./uploads/mobile/first.jpg");
    assert_eq!(remove[4], "./uploads/mobile/x.png");
    assert_eq!(remove[11], "./uploads/y.webp");
}

#[test]
fn a_rejected_update_has_written_nothing() {
    let mut operation = Operation::new(Kind::Update);
    assert_eq!(operation.current(), Phase::Arrived);
    assert_eq!(operation.authorize(true), Ok(()));
    assert_eq!(operation.find(true), Ok(()));
    let mut form = article_update();
    form.title = Patch::Null;
    let refused = operation.validate(blog::update_article(form));
    assert_eq!(refused.err(), Some(Failure::Validation));
    assert_eq!(operation.current(), Phase::Aborted);
    assert!(!operation.begin());
    assert!(!operation.doom("old.png"));
    assert_eq!(
        operation.upload(&request("a", Some((1, 1)), None, false), true, 1),
        Err(storage(vec!["./uploads/mobile/a.png"]))
    );
    assert_eq!(operation.persist(Outcome::Updated), Err(Failure::OutOfOrder));
    assert!(operation.commit().is_empty());
    assert!(operation.abort().is_empty());
    assert_eq!(operation.current(), Phase::Aborted);
}

#[test]
fn a_failed_insert_takes_every_upload_back() {
    let mut operation = writing();
    assert_eq!(operation.current(), Phase::Writing);
    assert_eq!(
        operation.upload(&request("one_1", Some((500, 500)), Some((700, 700)), false), true, 2),
        Ok("one_1.png".to_string())
    );
    assert_eq!(
        operation.upload(&request("two_1", Some((500, 500)), Some((700, 700)), false), false, 2),
        Ok("two_1.jpg".to_string())
    );
    assert!(operation.doom("old.png"));
    let remove = operation.abort();
    assert_eq!(
        remove,
        vec![
            "./uploads/mobile/one_1.png",
            "./uploads/one_1.png",
            "./uploads/mobile/two_1.jpg",
            "./uploads/two_1.jpg",
        ]
    );
    assert_eq!(operation.current(), Phase::Aborted);
    assert!(operation.commit().is_empty());
    assert!(operation.abort().is_empty());
}

#[test]
fn a_failed_upload_is_removed_at_once_and_not_tracked() {
    let mut operation = writing();
    assert_eq!(
        operation.upload(&request("a", Some((1, 1)), Some((1, 1)), true), true, 2),
        Err(storage(vec!["./uploads/mobile/a.png", "./uploads/mobile/a.webp"]))
    );
    assert!(operation.abort().is_empty());
}

#[test]
fn an_upload_outside_a_transaction_is_taken_back() {
    let mut operation = checked(Kind::Create);
    assert_eq!(
        operation.upload(&request("a", Some((1, 1)), None, false), true, 1),
        Err(storage(vec!["./uploads/mobile/a.png"]))
    );
    assert_eq!(operation.current(), Phase::Checked);
    assert!(operation.abort().is_empty());
}

#[test]
fn a_commit_keeps_the_uploads_and_hands_out_the_removals() {
    let mut operation = writing();
    assert!(!operation.begin());
    assert!(operation.upload(&request("new", Some((1, 1)), Some((1, 1)), true), true, 4).is_ok());
    assert!(operation.doom("old.jpg"));
    assert!(operation.commit().is_empty());
    assert_eq!(operation.persist(Outcome::NothingToDo), Ok(()));
    assert_eq!(operation.current(), Phase::Persisted);
    assert!(!operation.doom("late.jpg"));
    assert!(operation.upload(&request("late", Some((1, 1)), None, false), true, 1).is_err());
    let remove = operation.commit();
    assert_eq!(
        remove,
        vec![
            "./uploads/mobile/old.jpg",
            "./uploads/mobile/old.webp",
            "./uploads/old.jpg",
            "./uploads/old.webp",
        ]
    );
    assert_eq!(operation.current(), Phase::Committed);
    assert!(operation.abort().is_empty());
    assert_eq!(operation.current(), Phase::Committed);
    assert!(operation.commit().is_empty());
}

#[test]
fn pictures_are_checked_by_type_and_size() {
    let ok = blog::Picture { file_type: "image/png".to_string(), len: 2000000 };
    assert!(blog::picture_ok(&ok));
    let jpeg = blog::Picture { file_type: "image/jpeg".to_string(), len: 0 };
    assert!(blog::picture_ok(&jpeg));
    let large = blog::Picture { file_type: "image/png".to_string(), len: 2000001 };
    assert!(!blog::picture_ok(&large));
    let webp = blog::Picture { file_type: "image/webp".to_string(), len: 10 };
    assert!(!blog::picture_ok(&webp));
}

#[test]
fn names_of_uploaded_files() {
    assert_eq!(blog::picture_name(12, 0, 1650000000), "12_0_1650000000");
    assert_eq!(blog::picture_name(-1, 3, -5), "-1_3_-5");
    assert_eq!(blog::cover_name(1650000000), "cover_1650000000");
    assert_eq!(portfolio::asset_name("My Photo.PNG", 17), "my-photo-png-17");
}

#[test]
fn embedding_replaces_the_first_reference_only() {
    assert_eq!(
        blog::embed("<p>[[0]] and [[1]] and [[0]]</p>", 0, "9f"),
        "<p>[[9f]] and [[1]] and [[0]]</p>"
    );
    assert_eq!(blog::embed("no reference", 0, "9f"), "no reference");
    assert_eq!(blog::embed("[[10]][[1]]", 1, "x"), "[[10]][[x]]");
}

#[test]
fn a_new_article_is_checked_and_normalized() {
    let form = blog::NewArticleForm {
        cover: blog::Picture { file_type: "image/png".to_string(), len: 3 },
        category_id: Some(2),
        title: "  Title ".to_string(),
        description: Some(" d ".to_string()),
        is_published: Some(true),
        is_seo: None,
        content: " <p>body</p><h2>no</h2> ".to_string(),
        pictures: None,
    };
    let checked = blog::insert_article(form.clone()).unwrap();
    assert_eq!(checked.title, "Title");
    assert_eq!(checked.description, Some("d".to_string()));
    assert_eq!(checked.content, "<p>body</p>no");
    assert_eq!(checked.category_id, Some(2));
    assert_eq!(checked.cover, form.cover);
    let mut empty = form.clone();
    empty.title = " ".to_string();
    assert_eq!(blog::insert_article(empty).err(), Some(Failure::Validation));
    let mut long = form.clone();
    long.title = "t".repeat(256);
    assert_eq!(blog::insert_article(long).err(), Some(Failure::Validation));
    let mut wordy = form.clone();
    wordy.description = Some("d".repeat(321));
    assert_eq!(blog::insert_article(wordy).err(), Some(Failure::Validation));
    let mut edge = form;
    edge.title = "t".repeat(255);
    edge.description = Some("d".repeat(320));
    assert!(blog::insert_article(edge).is_ok());
}

#[test]
fn a_new_article_is_completed_with_uri_and_body() {
    let fields = blog::article_insert_fields(entity_uri("Title", 4), "<p>[[a]]</p>".to_string());
    assert_eq!(fields.len(), 2);
    assert_eq!(fields.name(0), "uri");
    assert_eq!(fields.get("uri"), Some(&text("title-4")));
    assert_eq!(fields.get("content"), Some(&text("<p>[[a]]</p>")));
}

#[test]
fn an_article_update_is_checked_and_normalized() {
    let mut form = article_update();
    form.title = Patch::Value(" T ".to_string());
    form.description = Patch::Value(Some(" <b>d</b> ".to_string()));
    form.content = Patch::Value(" <p>x</p><div>y</div> ".to_string());
    form.is_seo = Patch::Value(true);
    let checked = blog::update_article(form).unwrap();
    assert_eq!(checked.title, Patch::Value("T".to_string()));
    assert_eq!(checked.description, Patch::Value(Some("<b>d</b>".to_string())));
    assert_eq!(checked.content, Patch::Value("<p>x</p>y".to_string()));
    let uri = blog::article_uri(5, &checked);
    assert_eq!(uri, Some("t-5".to_string()));
    let fields = checked.fields(uri, Some(31));
    assert_eq!(fields.len(), 6);
    assert_eq!(fields.get("title"), Some(&text("T")));
    assert_eq!(fields.get("description"), Some(&text("<b>d</b>")));
    assert_eq!(fields.get("content"), Some(&text("<p>x</p>y")));
    assert_eq!(fields.get("is_seo"), Some(&FieldValue::Bool(true)));
    assert_eq!(fields.get("uri"), Some(&text("t-5")));
    assert_eq!(fields.get("cover_id"), Some(&FieldValue::Int(31)));
    assert_eq!(fields.get("cover"), None);
    assert_eq!(fields.get("is_published"), None);
}

#[test]
fn an_article_update_is_refused_on_bad_input() {
    let mut form = article_update();
    form.title = Patch::Value(" ".to_string());
    assert_eq!(blog::update_article(form).err(), Some(Failure::Validation));
    let mut form = article_update();
    form.description = Patch::Value(Some("<script>x</script>".to_string()));
    assert_eq!(blog::update_article(form).err(), Some(Failure::Validation));
    let mut form = article_update();
    form.pictures = Patch::Value(Some(Vec::new()));
    assert_eq!(blog::update_article(form).err(), Some(Failure::Validation));
    let mut form = article_update();
    form.pictures = Patch::Value(Some(Vec::new()));
    form.content = Patch::Value("body".to_string());
    assert!(blog::update_article(form).is_ok());
    let untouched = blog::update_article(article_update()).unwrap();
    assert_eq!(blog::article_uri(1, &untouched), None);
    assert!(untouched.fields(None, None).is_empty());
}

#[test]
fn portfolio_category_forms() {
    let mut form = portfolio::CategoryForm { name: "  Print  ".to_string() };
    assert!(form.is_valid());
    assert_eq!(form.name, "Print");
    let mut long = portfolio::CategoryForm { name: "x".repeat(31) };
    assert!(!long.is_valid());
    let mut edge = portfolio::CategoryForm { name: format!(" {} ", "x".repeat(30)) };
    assert!(edge.is_valid());
    let new = portfolio::CategoryForm { name: " Lorem ipsum ".to_string() };
    assert_eq!(
        portfolio::create_category(new),
        Ok(portfolio::CategoryForm { name: "Lorem ipsum".to_string() })
    );
    let long = portfolio::CategoryForm { name: "x".repeat(31) };
    assert_eq!(portfolio::create_category(long), Err(Failure::Validation));

    let mut update = portfolio::UpdateCategoryForm {
        name: Patch::Value(" Dolor sit amet ".to_string()),
        order: Patch::Value(1),
    };
    assert!(update.is_valid());
    assert_eq!(update.name, Patch::Value(" Dolor sit amet ".to_string()));
    let fields = portfolio::update_category(update).unwrap();
    assert_eq!(fields.len(), 2);
    assert_eq!(fields.get("name"), Some(&text(" Dolor sit amet ")));
    assert_eq!(fields.get("order"), Some(&FieldValue::Int(1)));

    let mut negative =
        portfolio::UpdateCategoryForm { name: Patch::Undefined, order: Patch::Value(-1) };
    assert!(!negative.is_valid());
    assert_eq!(portfolio::update_category(negative).err(), Some(Failure::Validation));
    let long = portfolio::UpdateCategoryForm {
        name: Patch::Value("x".repeat(31)),
        order: Patch::Undefined,
    };
    assert_eq!(portfolio::update_category(long).err(), Some(Failure::Validation));
    let mut cleared = portfolio::UpdateCategoryForm { name: Patch::Null, order: Patch::Value(1) };
    assert!(!cleared.is_valid());
    assert_eq!(portfolio::update_category(cleared).err(), Some(Failure::Validation));
}

#[test]
fn a_new_project_is_checked_and_normalized() {
    let form = portfolio::ProjectAddForm {
        name: " Name ".to_string(),
        description: None,
        content: format!(" <h2>{}</h2><em>x</em> ", "c".repeat(30)),
        categories: Some(vec![1, 2]),
        files: vec![portfolio::Upload { name: "a.png".to_string() }],
    };
    let checked = portfolio::insert_project(form.clone()).unwrap();
    assert_eq!(checked.name, "Name");
    assert_eq!(checked.content, format!("<h2>{}</h2>x", "c".repeat(30)));
    assert_eq!(checked.categories, Some(vec![1, 2]));
    let mut short = form.clone();
    short.content = "<p>too short</p>".to_string();
    assert_eq!(portfolio::insert_project(short).err(), Some(Failure::Validation));
    let mut long = form.clone();
    long.name = "n".repeat(121);
    assert_eq!(portfolio::insert_project(long).err(), Some(Failure::Validation));
    let mut wordy = form;
    wordy.description = Some("d".repeat(321));
    assert_eq!(portfolio::insert_project(wordy).err(), Some(Failure::Validation));
}

#[test]
fn a_project_update_is_checked_and_normalized() {
    let mut form = project_update();
    form.name = Patch::Value(" N ".to_string());
    form.description = Patch::Value(Some(" <b>kept as sent</b> ".to_string()));
    form.content = Patch::Value("<h3>c</h3>".to_string());
    form.categories = Patch::Value(Some(vec![3]));
    let checked = portfolio::update_project(form).unwrap();
    let fields = checked.fields();
    assert_eq!(fields.len(), 3);
    assert_eq!(fields.get("name"), Some(&text("N")));
    assert_eq!(fields.get("description"), Some(&text("<b>kept as sent</b>")));
    assert_eq!(fields.get("content"), Some(&text("<h3>c</h3>")));
    assert_eq!(fields.get("categories"), None);

    let mut form = project_update();
    form.name = Patch::Null;
    assert_eq!(portfolio::update_project(form).err(), Some(Failure::Validation));
    let mut form = project_update();
    form.content = Patch::Value("<script>x</script>".to_string());
    assert_eq!(portfolio::update_project(form).err(), Some(Failure::Validation));
    let mut form = project_update();
    form.content = Patch::Value("c".repeat(1001));
    assert_eq!(portfolio::update_project(form).err(), Some(Failure::Validation));
    let mut form = project_update();
    form.description = Patch::Value(Some("d".repeat(321)));
    assert_eq!(portfolio::update_project(form).err(), Some(Failure::Validation));
    assert!(portfolio::update_project(project_update()).unwrap().fields().is_empty());
}

#[test]
fn asset_actions() {
    let asset = |order, to_delete| portfolio::ProjectUpdateAssetForm { id: 4, order, to_delete };
    assert_eq!(asset(Some(2), Some(true)).action(), portfolio::AssetAction::Delete(4));
    assert_eq!(asset(Some(2), Some(false)).action(), portfolio::AssetAction::Reorder(4, 2));
    assert_eq!(asset(Some(0), None).action(), portfolio::AssetAction::Reorder(4, 0));
    assert_eq!(asset(None, None).action(), portfolio::AssetAction::Keep);
    assert_eq!(asset(None, Some(false)).action(), portfolio::AssetAction::Keep);
}

#[test]
fn free_slots_are_those_no_asset_takes() {
    assert_eq!(get_available_slots(&Vec::new()), vec![0, 1, 2, 3, 4]);
    assert_eq!(get_available_slots(&vec![1, 3]), vec![0, 2, 4]);
    assert_eq!(get_available_slots(&vec![4, 0, 0, 9, -1]), vec![1, 2, 3]);
    assert!(get_available_slots(&vec![0, 1, 2, 3, 4]).is_empty());
}

#[test]
fn new_assets_take_the_lowest_free_positions() {
    assert_eq!(placements(&vec![1, 3], 2), vec![0, 2]);
    assert_eq!(placements(&vec![1, 3], 3), vec![0, 2, 4]);
    assert_eq!(placements(&vec![1, 3], 9), vec![0, 2, 4]);
    assert!(placements(&vec![1, 3], 0).is_empty());
    assert!(placements(&vec![0, 1, 2, 3, 4], 1).is_empty());
    assert!(placements(&vec![9, 9, 9, 9, 9], 1).is_empty());
}

#[test]
fn upload_requests_carry_the_sizes_of_each_kind() {
    assert_eq!(
        blog::cover_upload(1650000000),
        request("cover_1650000000", Some((500, 250)), Some((700, 350)), true)
    );
    assert_eq!(
        blog::picture_upload(3, 1, 1650000000),
        request("3_1_1650000000", Some((500, 500)), Some((700, 700)), true)
    );
    assert_eq!(
        portfolio::asset_upload("Photo 1.jpg", 5),
        request("photo-1-jpg-5", Some((500, 500)), Some((700, 700)), true)
    );
    assert_eq!(home_image_upload(), request("index", None, Some((1000, 1000)), true));
    let plan = home_image_upload().plan(false);
    assert_eq!(plan.len(), 2);
    assert_eq!(plan[0].path, "./uploads/index.jpg");
    assert_eq!(plan[1].path, "./uploads/index.webp");
    assert_eq!((plan[0].width, plan[0].height), (1000, 1000));
}

#[test]
fn settings_and_home_image() {
    let form = UpdateParametersForm {
        background_color: Patch::Value("#fff".to_string()),
        title_color: Patch::Undefined,
        text_color: Patch::Value("#000".to_string()),
    };
    let fields = update_settings(&form).unwrap();
    assert_eq!(fields.len(), 2);
    assert_eq!(fields.get("background_color"), Some(&text("#fff")));
    assert_eq!(fields.get("text_color"), Some(&text("#000")));
    let cleared = UpdateParametersForm {
        background_color: Patch::Undefined,
        title_color: Patch::Null,
        text_color: Patch::Undefined,
    };
    assert_eq!(update_settings(&cleared).err(), Some(Failure::Validation));
    assert_eq!(update_home_informations("image/webp"), Ok(()));
    assert_eq!(update_home_informations("image/png"), Ok(()));
    assert_eq!(update_home_informations("image/jpeg"), Ok(()));
    assert_eq!(update_home_informations("image/gif"), Err(Failure::Validation));
}

#[test]
fn failures_map_to_statuses() {
    assert_eq!(Failure::Unauthorized.status(), 401);
    assert_eq!(Failure::Validation.status(), 400);
    assert_eq!(Failure::NotFound.status(), 404);
    assert_eq!(Failure::Conflict.status(), 500);
    assert_eq!(Failure::Storage.status(), 500);
    assert_eq!(Failure::OutOfOrder.status(), 500);
}

#[test]
fn steps_pass_in_their_order_only() {
    let mut update = Operation::new(Kind::Update);
    assert!(!update.begin());
    assert_eq!(update.find(true), Err(Failure::OutOfOrder));
    assert_eq!(update.validate(Ok(1)), Err(Failure::OutOfOrder));
    assert_eq!(update.persist(Outcome::Updated), Err(Failure::OutOfOrder));
    assert_eq!(update.current(), Phase::Arrived);
    assert_eq!(update.authorize(true), Ok(()));
    assert_eq!(update.authorize(true), Err(Failure::OutOfOrder));
    assert_eq!(update.validate(Ok(1)), Err(Failure::OutOfOrder));
    assert!(!update.begin());
    assert_eq!(update.find(true), Ok(()));
    assert_eq!(update.current(), Phase::Found);
    assert!(!update.begin());
    assert_eq!(update.validate(Ok("form")), Ok("form"));
    assert_eq!(update.current(), Phase::Checked);
    assert_eq!(update.find(true), Err(Failure::OutOfOrder));
    assert!(update.begin());
    assert!(!update.begin());
    assert_eq!(update.persist(Outcome::Vanished), Err(Failure::Conflict));
    assert_eq!(update.current(), Phase::Writing);
    assert_eq!(update.persist(Outcome::Updated), Ok(()));
    assert_eq!(update.persist(Outcome::Updated), Err(Failure::OutOfOrder));
    assert!(update.commit().is_empty());
    assert_eq!(update.current(), Phase::Committed);
}

#[test]
fn each_kind_asks_for_its_own_checks() {
    let mut create = Operation::new(Kind::Create);
    assert_eq!(create.authorize(true), Ok(()));
    assert_eq!(create.find(true), Err(Failure::OutOfOrder));
    assert!(!create.begin());
    assert_eq!(create.validate(Ok(())), Ok(()));
    assert!(create.begin());
    let mut delete = Operation::new(Kind::Delete);
    assert_eq!(delete.authorize(true), Ok(()));
    assert!(!delete.begin());
    assert_eq!(delete.validate(Ok(())), Err(Failure::OutOfOrder));
    assert_eq!(delete.find(true), Ok(()));
    assert!(delete.begin());
}

#[test]
fn a_failed_check_ends_the_operation() {
    let mut stranger = Operation::new(Kind::Update);
    assert_eq!(stranger.authorize(false), Err(Failure::Unauthorized));
    assert_eq!(stranger.current(), Phase::Aborted);
    assert_eq!(stranger.authorize(true), Err(Failure::OutOfOrder));
    assert!(!stranger.begin());
    let mut missing = Operation::new(Kind::Delete);
    assert_eq!(missing.authorize(true), Ok(()));
    assert_eq!(missing.find(false), Err(Failure::NotFound));
    assert_eq!(missing.current(), Phase::Aborted);
    assert!(!missing.begin());
    let mut invalid = Operation::new(Kind::Create);
    assert_eq!(invalid.authorize(true), Ok(()));
    assert_eq!(invalid.validate(Err::<u8, Failure>(Failure::Validation)), Err(Failure::Validation));
    assert_eq!(invalid.current(), Phase::Aborted);
    assert!(!invalid.begin());
    assert_eq!(require(false), Err(Failure::NotFound));
    assert_eq!(require(true), Ok(()));
}

#[test]
fn a_field_without_null_cannot_be_cleared() {
    assert_eq!(not_cleared(&Patch::<i16>::Null), Err(Failure::Validation));
    assert_eq!(not_cleared(&Patch::<i16>::Undefined), Ok(()));
    assert_eq!(not_cleared(&Patch::Value(3)), Ok(()));
    let mut form = blog_category();
    form.order = Patch::Null;
    assert_eq!(blog::update_category(1, form).err(), Some(Failure::Validation));
    let mut form = article_update();
    form.content = Patch::Null;
    assert_eq!(blog::update_article(form).err(), Some(Failure::Validation));
    let mut form = article_update();
    form.is_published = Patch::Null;
    assert_eq!(blog::update_article(form).err(), Some(Failure::Validation));
    let mut form = article_update();
    form.is_seo = Patch::Null;
    assert_eq!(blog::update_article(form).err(), Some(Failure::Validation));
    let mut form = article_update();
    form.description = Patch::Null;
    form.category_id = Patch::Null;
    let checked = blog::update_article(form).unwrap();
    let fields = checked.fields(None, None);
    assert_eq!(fields.get("description"), Some(&FieldValue::Null));
    assert_eq!(fields.get("category_id"), Some(&FieldValue::Null));
    let mut form = project_update();
    form.content = Patch::Null;
    assert_eq!(portfolio::update_project(form).err(), Some(Failure::Validation));
    let mut form = project_update();
    form.description = Patch::Null;
    assert!(portfolio::update_project(form).is_ok());
    let order = portfolio::UpdateCategoryForm { name: Patch::Undefined, order: Patch::Null };
    assert_eq!(portfolio::update_category(order).err(), Some(Failure::Validation));
}

#[test]
fn row_counts_and_references() {
    assert_eq!(written(1), Outcome::Updated);
    assert_eq!(written(0), Outcome::Vanished);
    assert_eq!(written(2), Outcome::Vanished);
    assert_eq!(reference("7"), "[[7]]");
    assert_eq!(reference(""), "[[]]");
}

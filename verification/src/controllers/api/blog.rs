//! Blog categories and articles: what a request may change, what is written
//! to the store, and which files leave the disk.
use vstd::prelude::*;
use vstd::string::*;
use crate::controllers::api::{
    html, html_spec, image_views, kept, not_cleared, placeholder, reference, optional_html, optional_html_spec, required_text,
    required_text_spec, stale_images, stale_of, within, Failure, ImageSpec, Operation, Phase,
    StoredImage,
};
use crate::utils::html::{cleaned, entity_uri, uri_of, Markup};
use crate::utils::image::{texts, UploadRequest};
use crate::utils::patch::{
    extract_fields, extracted, extracted_order, flag_field, flag_patch, form_view,
    lemma_extract_complete, number_field, number_patch, optional_flag_field, optional_flag_patch,
    optional_number_field, optional_number_patch, optional_text_field, optional_text_patch,
    optional_text_view, order_with, text_field, text_patch, text_view, FieldMap, FieldSpec,
    FieldValue, FormField, Patch,
};
use crate::utils::text::{
    decimal, decimal_nat, decimal_text, decimal_text_nat, dotless, lemma_decimal_is_dotless,
    lemma_decimal_nat_is_dotless, replace_first, replaced_first, same_text, trim, trimmed,
};

verus! {

/// The longest name of a blog category, in bytes.
pub const CATEGORY_NAME_MAX: usize = 60;

/// The longest title of an article, in bytes.
pub const TITLE_MAX: usize = 255;

/// The longest description of a category or an article, in bytes.
pub const DESCRIPTION_MAX: usize = 320;

/// The request that creates a blog category.
#[derive(Debug, Clone, PartialEq)]
pub struct NewCategoryForm {
    pub name: String,
    pub description: Option<String>,
    pub is_visible: Option<bool>,
    pub is_seo: Option<bool>,
}

/// Trims the name and the description of a new category.
pub fn insert_category(form: NewCategoryForm) -> (r: NewCategoryForm)
    ensures
        r.name@ == trimmed(form.name@),
        match form.description {
            None => r.description is None,
            Some(d) => r.description is Some && r.description->0@ == trimmed(d@),
        },
        r.is_visible == form.is_visible,
        r.is_seo == form.is_seo,
{
    let description = match &form.description {
        None => None,
        Some(d) => Some(trim(d.as_str())),
    };
    NewCategoryForm {
        name: trim(form.name.as_str()),
        description,
        is_visible: form.is_visible,
        is_seo: form.is_seo,
    }
}

/// The field map that completes a new category once its id is known: the URI.
pub fn category_insert_fields(uri: String) -> (r: FieldMap)
    ensures
        r.wf(),
        r@ == Map::<Seq<char>, FieldSpec>::empty().insert("uri"@, FieldSpec::Text(uri@)),
        r.order() == seq!["uri"@],
{
    let mut fields = FieldMap::new();
    fields.insert("uri", FieldValue::Text(uri));
    assert(fields.order() =~= seq!["uri"@]);
    fields
}

/// The request that updates a blog category.
#[derive(Debug, Clone, PartialEq)]
pub struct UpdateCategoryForm {
    pub name: Patch<String>,
    pub description: Patch<Option<String>>,
    pub is_visible: Patch<Option<bool>>,
    pub is_seo: Patch<Option<bool>>,
    pub order: Patch<i16>,
}

/// An update of a blog category as contracts see it.
pub struct CategoryPatch {
    pub name: Patch<Seq<char>>,
    pub description: Patch<Option<Seq<char>>>,
    pub is_visible: Patch<Option<bool>>,
    pub is_seo: Patch<Option<bool>>,
    pub order: Patch<i16>,
}

impl View for UpdateCategoryForm {
    type V = CategoryPatch;

    open spec fn view(&self) -> CategoryPatch {
        CategoryPatch {
            name: text_view(self.name),
            description: optional_text_view(self.description),
            is_visible: self.is_visible,
            is_seo: self.is_seo,
            order: self.order,
        }
    }
}

impl CategoryPatch {
    /// The update after its checks: the name trimmed and between one byte and
    /// the maximum; the description trimmed, sanitized and at most the
    /// maximum; neither the name nor the position cleared.
    pub open spec fn normalized(self) -> Result<CategoryPatch, Failure> {
        match required_text_spec(self.name, 1, CATEGORY_NAME_MAX as nat) {
            Err(e) => Err(e),
            Ok(name) => match optional_html_spec(
                self.description,
                Markup::Inline.allowed(),
                0,
                DESCRIPTION_MAX as nat,
            ) {
                Err(e) => Err(e),
                Ok(description) => if kept(self.order) {
                    Ok(CategoryPatch { name, description, ..self })
                } else {
                    Err(Failure::Validation)
                },
            },
        }
    }

    /// The fields of the form, by name.
    pub open spec fn entries(self) -> Seq<(Seq<char>, Option<FieldSpec>)> {
        seq![
            ("name"@, text_patch(self.name)),
            ("description"@, optional_text_patch(self.description)),
            ("is_visible"@, optional_flag_patch(self.is_visible)),
            ("is_seo"@, optional_flag_patch(self.is_seo)),
            ("order"@, number_patch(self.order)),
        ]
    }

    /// The columns that the update writes: the supplied fields, and the URI
    /// whenever the name is written.
    pub open spec fn written(self, uri: Option<Seq<char>>) -> Map<Seq<char>, FieldSpec> {
        match uri {
            None => extracted(self.entries()),
            Some(uri) => extracted(self.entries()).insert("uri"@, FieldSpec::Text(uri)),
        }
    }

    /// The order in which the columns are written: the fields in the order of
    /// the form, then the URI.
    pub open spec fn written_order(self, uri: Option<Seq<char>>) -> Seq<Seq<char>> {
        match uri {
            None => extracted_order(self.entries()),
            Some(_) => order_with(extracted_order(self.entries()), "uri"@),
        }
    }

    /// The URI that goes with the update: none unless the name is written.
    pub open spec fn uri(self, id: int) -> Option<Seq<char>> {
        match self.name {
            Patch::Value(name) => Some(uri_of(name, id)),
            _ => None,
        }
    }
}

impl UpdateCategoryForm {
    /// Builds the field map of the form, with the URI where one is given.
    pub fn fields(&self, uri: Option<String>) -> (r: FieldMap)
        ensures
            r.wf(),
            r@ == self@.written(
                match uri {
                    None => None,
                    Some(u) => Some(u@),
                },
            ),
            r.order() == self@.written_order(
                match uri {
                    None => None,
                    Some(u) => Some(u@),
                },
            ),
    {
        let mut form: Vec<FormField> = Vec::new();
        form.push(text_field("name", &self.name));
        form.push(optional_text_field("description", &self.description));
        form.push(optional_flag_field("is_visible", &self.is_visible));
        form.push(optional_flag_field("is_seo", &self.is_seo));
        form.push(number_field("order", &self.order));
        assert(form_view(form@) =~= self@.entries());
        let mut fields = extract_fields(&form);
        match uri {
            None => {},
            Some(u) => {
                fields.insert("uri", FieldValue::Text(u));
            },
        }
        fields
    }
}

/// Checks an update of the blog category `id` and builds its field map. The
/// update is refused exactly when its name is null, empty after trimming or too
/// long, its sanitized description is too long, or its position is null. Otherwise the map holds
/// the supplied fields in their checked form, and the URI recomputed from
/// the new name whenever the name is written.
pub fn update_category(id: i16, form: UpdateCategoryForm) -> (r: Result<FieldMap, Failure>)
    ensures
        match form@.normalized() {
            Err(e) => r is Err && r->Err_0 == e,
            Ok(checked) => r is Ok && r->Ok_0.wf() && r->Ok_0@ == checked.written(
                checked.uri(id as int),
            ) && r->Ok_0.order() == checked.written_order(checked.uri(id as int)),
        },
{
    let name = match required_text(&form.name, 1, CATEGORY_NAME_MAX) {
        Ok(name) => name,
        Err(e) => {
            return Err(e);
        },
    };
    let description = match optional_html(&form.description, Markup::Inline, 0, DESCRIPTION_MAX) {
        Ok(description) => description,
        Err(e) => {
            return Err(e);
        },
    };
    match not_cleared(&form.order) {
        Ok(()) => {},
        Err(e) => {
            return Err(e);
        },
    }
    let uri = match &name {
        Patch::Value(n) => Some(entity_uri(n.as_str(), id)),
        _ => None,
    };
    let checked = UpdateCategoryForm {
        name,
        description,
        is_visible: form.is_visible,
        is_seo: form.is_seo,
        order: form.order,
    };
    Ok(checked.fields(uri))
}

/// An update of a category writes known columns only, and the URI goes with
/// the name: a column that is written is one of the form's fields or the URI;
/// the URI is written exactly when the name is set to a value, and is then the
/// slug of the new name and the id; a field is written exactly when it was
/// supplied.
pub proof fn lemma_category_columns(checked: CategoryPatch, id: int, key: Seq<char>)
    ensures
        ({
            let written = checked.written(checked.uri(id));
            &&& written.contains_key(key) ==> key == "name"@ || key == "description"@ || key
                == "is_visible"@ || key == "is_seo"@ || key == "order"@ || key == "uri"@
            &&& written.contains_key("uri"@) <==> checked.name is Value
            &&& checked.name matches Patch::Value(name) ==> written["uri"@] == FieldSpec::Text(
                uri_of(name, id),
            )
            &&& written.contains_key("name"@) <==> checked.name.is_supplied()
            &&& written.contains_key("description"@) <==> checked.description.is_supplied()
            &&& written.contains_key("is_visible"@) <==> checked.is_visible.is_supplied()
            &&& written.contains_key("is_seo"@) <==> checked.is_seo.is_supplied()
            &&& written.contains_key("order"@) <==> checked.order.is_supplied()
        }),
{
    reveal_strlit("name");
    reveal_strlit("description");
    reveal_strlit("is_visible");
    reveal_strlit("is_seo");
    reveal_strlit("order");
    reveal_strlit("uri");
    let entries = checked.entries();
    lemma_extract_complete(entries, key);
    lemma_extract_complete(entries, "uri"@);
    lemma_extract_complete(entries, "name"@);
    lemma_extract_complete(entries, "description"@);
    lemma_extract_complete(entries, "is_visible"@);
    lemma_extract_complete(entries, "is_seo"@);
    lemma_extract_complete(entries, "order"@);
    assert("name"@.len() == 4 && "description"@.len() == 11 && "is_visible"@.len() == 10
        && "is_seo"@.len() == 6 && "order"@.len() == 5 && "uri"@.len() == 3);
    assert(entries[0].0 == "name"@ && entries[1].0 == "description"@ && entries[2].0
        == "is_visible"@ && entries[3].0 == "is_seo"@ && entries[4].0 == "order"@);
}

/// The largest picture that an article's body may embed, in bytes.
pub const PICTURE_MAX: usize = 2000000;

/// What the checks read of an uploaded picture: its declared media type and
/// its size in bytes.
#[derive(Debug, Clone, PartialEq)]
pub struct Picture {
    pub file_type: String,
    pub len: usize,
}

/// A picture may be embedded when it is declared as PNG or JPEG and is not
/// larger than the maximum.
pub open spec fn acceptable(picture: Picture) -> bool {
    (picture.file_type@ == "image/png"@ || picture.file_type@ == "image/jpeg"@) && picture.len
        <= PICTURE_MAX
}

/// Whether a picture may be embedded in an article's body.
pub fn picture_ok(picture: &Picture) -> (r: bool)
    ensures
        r == acceptable(*picture),
{
    (same_text(picture.file_type.as_str(), "image/png") || same_text(
        picture.file_type.as_str(),
        "image/jpeg",
    )) && picture.len <= PICTURE_MAX
}

/// The base name of the files of the picture at position `index` of the
/// request for the article `id`: id, position and time, joined by `_`.
pub open spec fn picture_name_of(id: int, index: nat, timestamp: int) -> Seq<char> {
    decimal(id) + "_"@ + decimal_nat(index) + "_"@ + decimal(timestamp)
}

/// Names the files of an embedded picture.
pub fn picture_name(id: i16, index: usize, timestamp: i64) -> (r: String)
    ensures
        r@ == picture_name_of(id as int, index as nat, timestamp as int),
        dotless(r@),
{
    proof {
        reveal_strlit("_");
        lemma_decimal_is_dotless(id as int);
        lemma_decimal_nat_is_dotless(index as nat);
        lemma_decimal_is_dotless(timestamp as int);
    }
    let mut r = decimal_text(id as i64);
    r.append("_");
    let position = decimal_text_nat(index as u128);
    r.append(position.as_str());
    r.append("_");
    let time = decimal_text(timestamp);
    r.append(time.as_str());
    r
}

/// Names the files of a cover: `cover_` and the time.
pub fn cover_name(timestamp: i64) -> (r: String)
    ensures
        r@ == "cover_"@ + decimal(timestamp as int),
        dotless(r@),
{
    proof {
        reveal_strlit("cover_");
        lemma_decimal_is_dotless(timestamp as int);
    }
    let mut r = String::from_str("cover_");
    let time = decimal_text(timestamp);
    r.append(time.as_str());
    r
}

/// The upload of an embedded picture: both tiers fitted into squares, with WebP.
pub fn picture_upload(id: i16, index: usize, timestamp: i64) -> (r: UploadRequest)
    ensures
        r.name@ == picture_name_of(id as int, index as nat, timestamp as int),
        dotless(r.name@),
        r.max_mobile == Some((500u32, 500u32)),
        r.max_desktop == Some((700u32, 700u32)),
        r.with_webp,
{
    UploadRequest {
        name: picture_name(id, index, timestamp),
        max_mobile: Some((500, 500)),
        max_desktop: Some((700, 700)),
        with_webp: true,
    }
}

/// The upload of a cover: both tiers twice as wide as high, with WebP.
pub fn cover_upload(timestamp: i64) -> (r: UploadRequest)
    ensures
        r.name@ == "cover_"@ + decimal(timestamp as int),
        dotless(r.name@),
        r.max_mobile == Some((500u32, 250u32)),
        r.max_desktop == Some((700u32, 350u32)),
        r.with_webp,
{
    UploadRequest {
        name: cover_name(timestamp),
        max_mobile: Some((500, 250)),
        max_desktop: Some((700, 350)),
        with_webp: true,
    }
}

/// Puts a registered image in the place of the picture at position `index`:
/// the first reference to the position becomes a reference to the image's id.
pub fn embed(content: &str, index: usize, image_id: &str) -> (r: String)
    ensures
        r@ == replaced_first(content@, placeholder(decimal_nat(index as nat)), placeholder(image_id@)),
{
    let position = decimal_text_nat(index as u128);
    let from = reference(position.as_str());
    let to = reference(image_id);
    replace_first(content, from.as_str(), to.as_str())
}

/// The request that creates an article.
#[derive(Debug, Clone, PartialEq)]
pub struct NewArticleForm {
    pub cover: Picture,
    pub category_id: Option<i16>,
    pub title: String,
    pub description: Option<String>,
    pub is_published: Option<bool>,
    pub is_seo: Option<bool>,
    pub content: String,
    pub pictures: Option<Vec<Picture>>,
}

impl NewArticleForm {
    /// Whether the article may be created: the trimmed title is between one
    /// byte and the maximum, the trimmed description at most the maximum.
    pub open spec fn acceptable(self) -> bool {
        within(trimmed(self.title@), 1, TITLE_MAX as nat) && match self.description {
            None => true,
            Some(d) => within(trimmed(d@), 0, DESCRIPTION_MAX as nat),
        }
    }
}

/// Checks a new article and puts it in the form in which it is stored: title
/// and description trimmed, the body trimmed and sanitized. It is refused
/// exactly when the title is empty or too long or the description too long.
pub fn insert_article(form: NewArticleForm) -> (r: Result<NewArticleForm, Failure>)
    ensures
        r is Ok <==> form.acceptable(),
        r is Err ==> r->Err_0 == Failure::Validation,
        r is Ok ==> ({
            let checked = r->Ok_0;
            &&& checked.title@ == trimmed(form.title@)
            &&& match form.description {
                None => checked.description is None,
                Some(d) => checked.description is Some && checked.description->0@ == trimmed(d@),
            }
            &&& checked.content@ == cleaned(Markup::Article.allowed(), trimmed(form.content@))
            &&& checked.cover == form.cover
            &&& checked.category_id == form.category_id
            &&& checked.is_published == form.is_published
            &&& checked.is_seo == form.is_seo
            &&& checked.pictures == form.pictures
        }),
{
    let title = trim(form.title.as_str());
    let title_bytes = title.as_str().as_bytes().len();
    if title_bytes < 1 || title_bytes > TITLE_MAX {
        return Err(Failure::Validation);
    }
    let description = match &form.description {
        None => None,
        Some(d) => {
            let d = trim(d.as_str());
            if d.as_str().as_bytes().len() > DESCRIPTION_MAX {
                return Err(Failure::Validation);
            }
            Some(d)
        },
    };
    let body = trim(form.content.as_str());
    let content = Markup::Article.sanitize(body.as_str());
    Ok(
        NewArticleForm {
            cover: form.cover,
            category_id: form.category_id,
            title,
            description,
            is_published: form.is_published,
            is_seo: form.is_seo,
            content,
            pictures: form.pictures,
        },
    )
}

/// The field map that completes a new article once its id is known and its
/// pictures are embedded: the URI and the final body.
pub fn article_insert_fields(uri: String, content: String) -> (r: FieldMap)
    ensures
        r.wf(),
        r@ == Map::<Seq<char>, FieldSpec>::empty().insert("uri"@, FieldSpec::Text(uri@)).insert(
            "content"@,
            FieldSpec::Text(content@),
        ),
        r.order() == order_with(seq!["uri"@], "content"@),
{
    let mut fields = FieldMap::new();
    fields.insert("uri", FieldValue::Text(uri));
    assert(fields.order() =~= seq!["uri"@]);
    fields.insert("content", FieldValue::Text(content));
    fields
}

/// The request that updates an article.
#[derive(Debug, Clone, PartialEq)]
pub struct UpdateArticleForm {
    pub cover: Patch<Picture>,
    pub category_id: Patch<Option<i16>>,
    pub title: Patch<String>,
    pub description: Patch<Option<String>>,
    pub content: Patch<String>,
    pub is_published: Patch<bool>,
    pub is_seo: Patch<bool>,
    pub pictures: Patch<Option<Vec<Picture>>>,
}

/// An update of an article as contracts see it.
pub struct ArticlePatch {
    pub cover: Patch<Picture>,
    pub category_id: Patch<Option<i16>>,
    pub title: Patch<Seq<char>>,
    pub description: Patch<Option<Seq<char>>>,
    pub content: Patch<Seq<char>>,
    pub is_published: Patch<bool>,
    pub is_seo: Patch<bool>,
    pub pictures: Patch<Option<Vec<Picture>>>,
}

impl View for UpdateArticleForm {
    type V = ArticlePatch;

    open spec fn view(&self) -> ArticlePatch {
        ArticlePatch {
            cover: self.cover,
            category_id: self.category_id,
            title: text_view(self.title),
            description: optional_text_view(self.description),
            content: text_view(self.content),
            is_published: self.is_published,
            is_seo: self.is_seo,
            pictures: self.pictures,
        }
    }
}

impl ArticlePatch {
    /// Whether the update brings pictures to embed.
    pub open spec fn brings_pictures(self) -> bool {
        self.pictures matches Patch::Value(Some(_))
    }

    /// The update after its checks: the title trimmed and between one byte and
    /// the maximum; the description trimmed, sanitized and between one byte
    /// and the maximum; the body trimmed and sanitized; no pictures without
    /// a body to embed them in; and neither the title, the body nor a flag
    /// cleared.
    pub open spec fn normalized(self) -> Result<ArticlePatch, Failure> {
        match required_text_spec(self.title, 1, TITLE_MAX as nat) {
            Err(e) => Err(e),
            Ok(title) => match optional_html_spec(
                self.description,
                Markup::Inline.allowed(),
                1,
                DESCRIPTION_MAX as nat,
            ) {
                Err(e) => Err(e),
                Ok(description) => match html_spec(
                    self.content,
                    Markup::Article.allowed(),
                    0,
                    usize::MAX as nat,
                ) {
                    Err(e) => Err(e),
                    Ok(content) => if (self.brings_pictures() && !(content is Value)) || !kept(
                        self.is_published,
                    ) || !kept(self.is_seo) {
                        Err(Failure::Validation)
                    } else {
                        Ok(ArticlePatch { title, description, content, ..self })
                    },
                },
            },
        }
    }

    /// The fields of the form, by name. The cover and the pictures are files
    /// and are no fields.
    pub open spec fn entries(self) -> Seq<(Seq<char>, Option<FieldSpec>)> {
        seq![
            ("category_id"@, optional_number_patch(self.category_id)),
            ("title"@, text_patch(self.title)),
            ("description"@, optional_text_patch(self.description)),
            ("content"@, text_patch(self.content)),
            ("is_published"@, flag_patch(self.is_published)),
            ("is_seo"@, flag_patch(self.is_seo)),
        ]
    }

    /// The columns that the update writes: the supplied fields, the URI
    /// where one is given, and the id of the new cover's file where there is one.
    pub open spec fn written(self, uri: Option<Seq<char>>, cover_id: Option<int>) -> Map<
        Seq<char>,
        FieldSpec,
    > {
        let base = extracted(self.entries());
        let with_uri = match uri {
            None => base,
            Some(uri) => base.insert("uri"@, FieldSpec::Text(uri)),
        };
        match cover_id {
            None => with_uri,
            Some(file) => with_uri.insert("cover_id"@, FieldSpec::Int(file)),
        }
    }

    /// The order in which the columns are written: the fields in the order of
    /// the form, then the URI, then the cover.
    pub open spec fn written_order(self, uri: Option<Seq<char>>, cover_id: Option<int>) -> Seq<
        Seq<char>,
    > {
        let base = extracted_order(self.entries());
        let with_uri = match uri {
            None => base,
            Some(_) => order_with(base, "uri"@),
        };
        match cover_id {
            None => with_uri,
            Some(_) => order_with(with_uri, "cover_id"@),
        }
    }

    /// The URI that goes with the update: none unless the title is written.
    pub open spec fn uri(self, id: int) -> Option<Seq<char>> {
        match self.title {
            Patch::Value(title) => Some(uri_of(title, id)),
            _ => None,
        }
    }
}

/// Checks an update of an article and puts its texts in the form in which
/// they are stored. The update is refused exactly when the title is null,
/// empty after trimming or too long, the sanitized description is empty or
/// too long, the body or a flag is null, or pictures come without a body.
pub fn update_article(form: UpdateArticleForm) -> (r: Result<UpdateArticleForm, Failure>)
    ensures
        match form@.normalized() {
            Err(e) => r is Err && r->Err_0 == e,
            Ok(checked) => r is Ok && r->Ok_0@ == checked,
        },
{
    let title = match required_text(&form.title, 1, TITLE_MAX) {
        Ok(title) => title,
        Err(e) => {
            return Err(e);
        },
    };
    let description = match optional_html(&form.description, Markup::Inline, 1, DESCRIPTION_MAX) {
        Ok(description) => description,
        Err(e) => {
            return Err(e);
        },
    };
    let content = match html(&form.content, Markup::Article, 0, usize::MAX) {
        Ok(content) => content,
        Err(e) => {
            return Err(e);
        },
    };
    let brings_pictures = match &form.pictures {
        Patch::Value(Some(_)) => true,
        _ => false,
    };
    let has_body = match &content {
        Patch::Value(_) => true,
        _ => false,
    };
    if (brings_pictures && !has_body) || not_cleared(&form.is_published).is_err() || not_cleared(
        &form.is_seo,
    ).is_err() {
        return Err(Failure::Validation);
    }
    Ok(
        UpdateArticleForm {
            cover: form.cover,
            category_id: form.category_id,
            title,
            description,
            content,
            is_published: form.is_published,
            is_seo: form.is_seo,
            pictures: form.pictures,
        },
    )
}

/// The computed URI of an updated article: recomputed from the new title
/// whenever the title is written, none otherwise.
pub fn article_uri(id: i16, form: &UpdateArticleForm) -> (r: Option<String>)
    ensures
        match form@.uri(id as int) {
            None => r is None,
            Some(uri) => r is Some && r->0@ == uri,
        },
{
    match &form.title {
        Patch::Value(title) => Some(entity_uri(title.as_str(), id)),
        _ => None,
    }
}

impl UpdateArticleForm {
    /// Builds the field map of the update: the supplied fields, the URI where
    /// one is given, and `cover_id` where a new cover was registered.
    pub fn fields(&self, uri: Option<String>, cover_id: Option<i32>) -> (r: FieldMap)
        ensures
            r.wf(),
            r@ == self@.written(
                match uri {
                    None => None,
                    Some(u) => Some(u@),
                },
                match cover_id {
                    None => None,
                    Some(file) => Some(file as int),
                },
            ),
            r.order() == self@.written_order(
                match uri {
                    None => None,
                    Some(u) => Some(u@),
                },
                match cover_id {
                    None => None,
                    Some(file) => Some(file as int),
                },
            ),
    {
        let mut form: Vec<FormField> = Vec::new();
        form.push(optional_number_field("category_id", &self.category_id));
        form.push(text_field("title", &self.title));
        form.push(optional_text_field("description", &self.description));
        form.push(text_field("content", &self.content));
        form.push(flag_field("is_published", &self.is_published));
        form.push(flag_field("is_seo", &self.is_seo));
        assert(form_view(form@) =~= self@.entries());
        let mut fields = extract_fields(&form);
        match uri {
            None => {},
            Some(u) => {
                fields.insert("uri", FieldValue::Text(u));
            },
        }
        match cover_id {
            None => {},
            Some(file) => {
                fields.insert("cover_id", FieldValue::Int(file as i64));
            },
        }
        fields
    }

    /// The registered images that the update makes stale: with a new body,
    /// those that it does not embed; without one, none.
    pub fn stale(&self, images: &Vec<StoredImage>) -> (r: Vec<StoredImage>)
        ensures
            image_views(r@) == (match self.content {
                Patch::Value(body) => stale_of(body@, image_views(images@)),
                _ => Seq::<ImageSpec>::empty(),
            }),
    {
        match &self.content {
            Patch::Value(body) => stale_images(body.as_str(), images),
            _ => {
                let r: Vec<StoredImage> = Vec::new();
                assert(image_views(r@) =~= Seq::<ImageSpec>::empty());
                r
            },
        }
    }
}

/// The ids of a sequence of images.
pub open spec fn image_ids(images: Seq<ImageSpec>) -> Seq<Seq<char>> {
    Seq::new(images.len(), |i: int| images[i].id)
}

/// The stored paths of a sequence of images.
pub open spec fn image_paths(images: Seq<ImageSpec>) -> Seq<Seq<char>> {
    Seq::new(images.len(), |i: int| images[i].path)
}

/// Detaches the images that an update makes stale: while the transaction is
/// open, their files are scheduled for removal after the commit and their
/// ids are returned, for their rows to be deleted now. The images that the
/// body still embeds are left alone. Outside an open transaction nothing
/// is scheduled and no id is returned.
pub fn detach_stale(
    operation: &mut Operation,
    form: &UpdateArticleForm,
    images: &Vec<StoredImage>,
) -> (rows: Vec<String>)
    ensures
        ({
            let stale = match form.content {
                Patch::Value(body) => stale_of(body@, image_views(images@)),
                _ => Seq::<ImageSpec>::empty(),
            };
            if old(operation)@.phase == Phase::Writing {
                texts(rows@) == image_ids(stale) && final(operation)@ == old(operation)@.doom_all(
                    image_paths(stale),
                )
            } else {
                rows@.len() == 0 && final(operation)@ == old(operation)@
            }
        }),
{
    let mut rows: Vec<String> = Vec::new();
    match operation.current() {
        Phase::Writing => {},
        _ => {
            return rows;
        },
    }
    let stale = form.stale(images);
    let ghost views = image_views(stale@);
    let mut paths: Vec<String> = Vec::new();
    let mut i: usize = 0;
    proof {
        assert(texts(rows@) =~= image_ids(views).take(0));
        assert(texts(paths@) =~= image_paths(views).take(0));
    }
    while i < stale.len()
        invariant
            i <= stale@.len(),
            views == image_views(stale@),
            texts(rows@) == image_ids(views).take(i as int),
            texts(paths@) == image_paths(views).take(i as int),
        decreases stale@.len() - i,
    {
        let ghost ids_before = texts(rows@);
        let ghost paths_before = texts(paths@);
        rows.push(String::from_str(stale[i].id.as_str()));
        paths.push(String::from_str(stale[i].path.as_str()));
        proof {
            assert(views[i as int] == stale@[i as int]@);
            assert(texts(rows@) =~= ids_before.push(stale@[i as int].id@));
            assert(texts(paths@) =~= paths_before.push(stale@[i as int].path@));
            assert(image_ids(views).take(i + 1) =~= image_ids(views).take(i as int).push(
                image_ids(views)[i as int],
            ));
            assert(image_paths(views).take(i + 1) =~= image_paths(views).take(i as int).push(
                image_paths(views)[i as int],
            ));
        }
        i += 1;
    }
    proof {
        assert(image_ids(views).take(stale@.len() as int) =~= image_ids(views));
        assert(image_paths(views).take(stale@.len() as int) =~= image_paths(views));
    }
    operation.doom_all(&paths);
    rows
}

/// An update of an article writes known columns only, and the URI goes with
/// the title: a column that is written is one of the form's fields, the URI
/// or the cover's file; the URI is written exactly when the title is set to a
/// value, and is then the slug of the new title and the id; the cover's file
/// is written exactly when a new cover was registered.
pub proof fn lemma_article_columns(
    checked: ArticlePatch,
    id: int,
    cover_id: Option<int>,
    key: Seq<char>,
)
    ensures
        ({
            let written = checked.written(checked.uri(id), cover_id);
            &&& written.contains_key(key) ==> key == "category_id"@ || key == "title"@ || key
                == "description"@ || key == "content"@ || key == "is_published"@ || key
                == "is_seo"@ || key == "uri"@ || key == "cover_id"@
            &&& written.contains_key("uri"@) <==> checked.title is Value
            &&& checked.title matches Patch::Value(title) ==> written["uri"@] == FieldSpec::Text(
                uri_of(title, id),
            )
            &&& written.contains_key("cover_id"@) <==> cover_id is Some
            &&& cover_id matches Some(file) ==> written["cover_id"@] == FieldSpec::Int(file)
            &&& written.contains_key("category_id"@) <==> checked.category_id.is_supplied()
            &&& written.contains_key("title"@) <==> checked.title.is_supplied()
            &&& written.contains_key("description"@) <==> checked.description.is_supplied()
            &&& written.contains_key("content"@) <==> checked.content.is_supplied()
            &&& written.contains_key("is_published"@) <==> checked.is_published.is_supplied()
            &&& written.contains_key("is_seo"@) <==> checked.is_seo.is_supplied()
        }),
{
    reveal_strlit("category_id");
    reveal_strlit("title");
    reveal_strlit("description");
    reveal_strlit("content");
    reveal_strlit("is_published");
    reveal_strlit("is_seo");
    reveal_strlit("uri");
    reveal_strlit("cover_id");
    let entries = checked.entries();
    lemma_extract_complete(entries, key);
    lemma_extract_complete(entries, "uri"@);
    lemma_extract_complete(entries, "cover_id"@);
    lemma_extract_complete(entries, "category_id"@);
    lemma_extract_complete(entries, "title"@);
    lemma_extract_complete(entries, "description"@);
    lemma_extract_complete(entries, "content"@);
    lemma_extract_complete(entries, "is_published"@);
    lemma_extract_complete(entries, "is_seo"@);
    assert("category_id"@.len() == 11 && "title"@.len() == 5 && "description"@.len() == 11
        && "content"@.len() == 7 && "is_published"@.len() == 12 && "is_seo"@.len() == 6
        && "uri"@.len() == 3 && "cover_id"@.len() == 8);
    assert("category_id"@[1] == 'a' && "description"@[1] == 'e');
    assert(entries[0].0 == "category_id"@ && entries[1].0 == "title"@ && entries[2].0
        == "description"@ && entries[3].0 == "content"@ && entries[4].0 == "is_published"@
        && entries[5].0 == "is_seo"@);
}

/// The stored paths of an article's files: the cover's, then each image's.
pub open spec fn article_paths(cover_path: Seq<char>, images: Seq<ImageSpec>) -> Seq<Seq<char>> {
    seq![cover_path] + image_paths(images)
}

/// Schedules every file on disk of an article that is deleted: the four
/// files of its cover, then the four of each embedded image. The commit
/// hands them out for removal, once the store has deleted the article.
/// Outside an open transaction nothing is scheduled.
pub fn delete_article(operation: &mut Operation, cover_path: &str, images: &Vec<StoredImage>) -> (ok:
    bool)
    ensures
        ok == (old(operation)@.phase == Phase::Writing),
        final(operation)@ == old(operation)@.doom_all(
            article_paths(cover_path@, image_views(images@)),
        ),
{
    let mut stored: Vec<String> = Vec::new();
    stored.push(String::from_str(cover_path));
    let mut i: usize = 0;
    let ghost paths = image_paths(image_views(images@));
    assert(texts(stored@) =~= seq![cover_path@] + paths.take(0));
    while i < images.len()
        invariant
            i <= images@.len(),
            paths == image_paths(image_views(images@)),
            texts(stored@) == seq![cover_path@] + paths.take(i as int),
        decreases images@.len() - i,
    {
        let ghost before = texts(stored@);
        stored.push(String::from_str(images[i].path.as_str()));
        proof {
            assert(paths[i as int] == images@[i as int].path@);
            assert(texts(stored@) =~= before.push(paths[i as int]));
            assert(paths.take(i + 1) =~= paths.take(i as int).push(paths[i as int]));
            assert(texts(stored@) =~= seq![cover_path@] + paths.take(i + 1));
        }
        i += 1;
    }
    proof {
        assert(paths.take(images@.len() as int) =~= paths);
    }
    operation.doom_all(&stored)
}

} // verus!

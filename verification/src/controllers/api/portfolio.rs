//! Portfolio categories and projects: what a request may change, what is
//! written to the store, and which files leave the disk.
use vstd::prelude::*;
use vstd::string::*;
use crate::controllers::api::{
    bounded, html, html_spec, optional_text, optional_text_spec, required_text, required_text_spec,
    within, Failure, Operation, Phase,
};
use crate::services::projects::Asset;
use crate::utils::html::{cleaned, slug_char, slug_of, slugify, Markup};
use crate::utils::image::{texts, UploadRequest};
use crate::utils::patch::{
    extract_fields, extracted, extracted_order, form_view, lemma_extract_complete, number_field,
    number_patch, optional_text_field, optional_text_patch, optional_text_view, text_field,
    text_patch, text_view, FieldMap, FieldSpec, FormField, Patch,
};
use crate::utils::text::{byte_len, decimal, decimal_text, dotless, trim, trimmed};

verus! {

/// The longest name of a portfolio category, in bytes.
pub const CATEGORY_NAME_MAX: usize = 30;

/// The longest name of a project, in bytes.
pub const PROJECT_NAME_MAX: usize = 120;

/// The longest description of a project, in bytes.
pub const DESCRIPTION_MAX: usize = 320;

/// The shortest body of a new project, in bytes.
pub const NEW_CONTENT_MIN: usize = 30;

/// The longest body of an updated project, in bytes.
pub const CONTENT_MAX: usize = 1000;

/// The request that creates a portfolio category.
#[derive(Debug, Clone, PartialEq)]
pub struct CategoryForm {
    pub name: String,
}

impl CategoryForm {
    /// Trims the name in place and says whether it is short enough.
    pub fn is_valid(&mut self) -> (r: bool)
        ensures
            final(self).name@ == trimmed(old(self).name@),
            r == (byte_len(trimmed(old(self).name@)) <= CATEGORY_NAME_MAX),
    {
        self.name = trim(self.name.as_str());
        self.name.as_str().as_bytes().len() <= CATEGORY_NAME_MAX
    }
}

/// Checks a new portfolio category and trims its name. It is refused exactly
/// when the trimmed name is too long.
pub fn create_category(form: CategoryForm) -> (r: Result<CategoryForm, Failure>)
    ensures
        r is Ok <==> byte_len(trimmed(form.name@)) <= CATEGORY_NAME_MAX,
        r is Ok ==> r->Ok_0.name@ == trimmed(form.name@),
        r is Err ==> r->Err_0 == Failure::Validation,
{
    let mut form = form;
    if form.is_valid() {
        Ok(form)
    } else {
        Err(Failure::Validation)
    }
}

/// The request that updates a portfolio category.
#[derive(Debug, Clone, PartialEq)]
pub struct UpdateCategoryForm {
    pub name: Patch<String>,
    pub order: Patch<i16>,
}

/// An update of a portfolio category as contracts see it.
pub struct CategoryPatch {
    pub name: Patch<Seq<char>>,
    pub order: Patch<i16>,
}

impl View for UpdateCategoryForm {
    type V = CategoryPatch;

    open spec fn view(&self) -> CategoryPatch {
        CategoryPatch { name: text_view(self.name), order: self.order }
    }
}

impl CategoryPatch {
    /// Neither the name nor the position is cleared, a new name is short
    /// enough once trimmed, and a new position is not negative.
    pub open spec fn acceptable(self) -> bool {
        !(self.name is Null) && !(self.order is Null) && (self.name matches Patch::Value(name)
            ==> byte_len(trimmed(name)) <= CATEGORY_NAME_MAX) && (self.order matches Patch::Value(
            position,
        ) ==> position >= 0)
    }

    /// The fields of the form, by name.
    pub open spec fn entries(self) -> Seq<(Seq<char>, Option<FieldSpec>)> {
        seq![("name"@, text_patch(self.name)), ("order"@, number_patch(self.order))]
    }
}

impl UpdateCategoryForm {
    /// Says whether the update may be applied. The form stays as it is.
    pub fn is_valid(&mut self) -> (r: bool)
        ensures
            r == old(self)@.acceptable(),
            *final(self) == *old(self),
    {
        match &self.name {
            Patch::Undefined => {},
            Patch::Null => {
                return false;
            },
            Patch::Value(value) => {
                let value = trim(value.as_str());
                if value.as_str().as_bytes().len() > CATEGORY_NAME_MAX {
                    return false;
                }
            },
        }
        match &self.order {
            Patch::Undefined => true,
            Patch::Null => false,
            Patch::Value(position) => *position >= 0,
        }
    }

    /// Builds the field map of the form.
    pub fn fields(&self) -> (r: FieldMap)
        ensures
            r.wf(),
            r@ == extracted(self@.entries()),
            r.order() == extracted_order(self@.entries()),
    {
        let mut form: Vec<FormField> = Vec::new();
        form.push(text_field("name", &self.name));
        form.push(number_field("order", &self.order));
        assert(form_view(form@) =~= self@.entries());
        extract_fields(&form)
    }
}

/// Checks an update of a portfolio category and builds its field map: the
/// fields that were supplied, as they were sent. The update is refused
/// exactly when the name or the position is cleared, the name too long or
/// the position negative.
pub fn update_category(form: UpdateCategoryForm) -> (r: Result<FieldMap, Failure>)
    ensures
        r is Ok <==> form@.acceptable(),
        r is Err ==> r->Err_0 == Failure::Validation,
        r is Ok ==> r->Ok_0.wf() && r->Ok_0@ == extracted(form@.entries()) && r->Ok_0.order()
            == extracted_order(form@.entries()),
{
    let mut form = form;
    if !form.is_valid() {
        return Err(Failure::Validation);
    }
    Ok(form.fields())
}

/// What the pipeline reads of an uploaded file: the name it was sent under.
#[derive(Debug, Clone, PartialEq)]
pub struct Upload {
    pub name: String,
}

/// The base name of the files of an uploaded asset: the slug of the name it
/// was sent under, `_` and the time.
pub open spec fn asset_name_of(file_name: Seq<char>, timestamp: int) -> Seq<char> {
    slug_of(file_name + "_"@ + decimal(timestamp))
}

/// Names the files of an uploaded asset.
pub fn asset_name(file_name: &str, timestamp: i64) -> (r: String)
    ensures
        r@ == asset_name_of(file_name@, timestamp as int),
        dotless(r@),
{
    let mut text = String::from_str(file_name);
    text.append("_");
    let time = decimal_text(timestamp);
    text.append(time.as_str());
    let r = slugify(text.as_str());
    assert forall|i: int| 0 <= i < r@.len() implies r@[i] != '.' by {
        assert(slug_char(r@[i]));
    }
    r
}

/// The upload of an asset: both tiers fitted into squares, with WebP.
pub fn asset_upload(file_name: &str, timestamp: i64) -> (r: UploadRequest)
    ensures
        r.name@ == asset_name_of(file_name@, timestamp as int),
        dotless(r.name@),
        r.max_mobile == Some((500u32, 500u32)),
        r.max_desktop == Some((700u32, 700u32)),
        r.with_webp,
{
    UploadRequest {
        name: asset_name(file_name, timestamp),
        max_mobile: Some((500, 500)),
        max_desktop: Some((700, 700)),
        with_webp: true,
    }
}

/// The request that creates a project.
#[derive(Debug, Clone, PartialEq)]
pub struct ProjectAddForm {
    pub name: String,
    pub description: Option<String>,
    pub content: String,
    pub categories: Option<Vec<i16>>,
    pub files: Vec<Upload>,
}

impl ProjectAddForm {
    /// The body as it is stored: trimmed and sanitized.
    pub open spec fn body(self) -> Seq<char> {
        cleaned(Markup::Project.allowed(), trimmed(self.content@))
    }

    /// Whether the project may be created: the trimmed name and description
    /// are short enough and the stored body is long enough (and, as every
    /// text in memory, no longer than the machine can address).
    pub open spec fn acceptable(self) -> bool {
        &&& byte_len(trimmed(self.name@)) <= PROJECT_NAME_MAX
        &&& match self.description {
            None => true,
            Some(d) => byte_len(trimmed(d@)) <= DESCRIPTION_MAX,
        }
        &&& within(self.body(), NEW_CONTENT_MIN as nat, usize::MAX as nat)
    }
}

/// Checks a new project and puts it in the form in which it is stored: name
/// and description trimmed, the body trimmed and sanitized. It is refused
/// exactly when the name or the description is too long or the body too short.
pub fn insert_project(form: ProjectAddForm) -> (r: Result<ProjectAddForm, Failure>)
    ensures
        r is Ok <==> form.acceptable(),
        r is Err ==> r->Err_0 == Failure::Validation,
        r is Ok ==> ({
            let checked = r->Ok_0;
            &&& checked.name@ == trimmed(form.name@)
            &&& match form.description {
                None => checked.description is None,
                Some(d) => checked.description is Some && checked.description->0@ == trimmed(d@),
            }
            &&& checked.content@ == form.body()
            &&& checked.categories == form.categories
            &&& checked.files == form.files
        }),
{
    let name = trim(form.name.as_str());
    if name.as_str().as_bytes().len() > PROJECT_NAME_MAX {
        return Err(Failure::Validation);
    }
    let description = match &form.description {
        None => None,
        Some(d) => {
            let d = trim(d.as_str());
            if d.as_str().as_bytes().len() > DESCRIPTION_MAX {
                return Err(Failure::Validation);
            }
            Some(d)
        },
    };
    let body = trim(form.content.as_str());
    let content = match bounded(Markup::Project.sanitize(body.as_str()), NEW_CONTENT_MIN, usize::MAX) {
        Ok(content) => content,
        Err(e) => {
            return Err(e);
        },
    };
    Ok(
        ProjectAddForm {
            name,
            description,
            content,
            categories: form.categories,
            files: form.files,
        },
    )
}

/// What an update asks for one asset of a project.
#[derive(Debug, Clone, Copy, PartialEq, Eq, Structural)]
pub struct ProjectUpdateAssetForm {
    pub id: i16,
    pub order: Option<i16>,
    pub to_delete: Option<bool>,
}

/// What is done with one asset of a project.
#[derive(Debug, Clone, Copy, PartialEq, Eq, Structural)]
pub enum AssetAction {
    /// Delete the asset's row now and its files after the commit.
    Delete(i16),
    /// Move the asset to another position.
    Reorder(i16, i16),
    /// Leave the asset as it is.
    Keep,
}

impl ProjectUpdateAssetForm {
    /// Decides what is done with the asset: a deletion that is asked for wins
    /// over a new position.
    pub fn action(&self) -> (r: AssetAction)
        ensures
            r == (if self.to_delete == Some(true) {
                AssetAction::Delete(self.id)
            } else {
                match self.order {
                    Some(position) => AssetAction::Reorder(self.id, position),
                    None => AssetAction::Keep,
                }
            }),
    {
        match self.to_delete {
            Some(true) => AssetAction::Delete(self.id),
            _ => match self.order {
                Some(position) => AssetAction::Reorder(self.id, position),
                None => AssetAction::Keep,
            },
        }
    }
}

/// The request that updates a project.
#[derive(Debug, Clone, PartialEq)]
pub struct ProjectUpdateForm {
    pub name: Patch<String>,
    pub description: Patch<Option<String>>,
    pub content: Patch<String>,
    pub categories: Patch<Option<Vec<i16>>>,
    pub assets: Patch<Vec<ProjectUpdateAssetForm>>,
    pub files: Option<Vec<Upload>>,
}

/// An update of a project as contracts see it.
pub struct ProjectPatch {
    pub name: Patch<Seq<char>>,
    pub description: Patch<Option<Seq<char>>>,
    pub content: Patch<Seq<char>>,
    pub categories: Patch<Option<Vec<i16>>>,
    pub assets: Patch<Vec<ProjectUpdateAssetForm>>,
    pub files: Option<Vec<Upload>>,
}

impl View for ProjectUpdateForm {
    type V = ProjectPatch;

    open spec fn view(&self) -> ProjectPatch {
        ProjectPatch {
            name: text_view(self.name),
            description: optional_text_view(self.description),
            content: text_view(self.content),
            categories: self.categories,
            assets: self.assets,
            files: self.files,
        }
    }
}

impl ProjectPatch {
    /// The update after its checks: the name trimmed and between one byte and
    /// the maximum; the description trimmed and at most the maximum; the body
    /// trimmed, sanitized and between one byte and the maximum; neither the
    /// name nor the body cleared.
    pub open spec fn normalized(self) -> Result<ProjectPatch, Failure> {
        match required_text_spec(self.name, 1, PROJECT_NAME_MAX as nat) {
            Err(e) => Err(e),
            Ok(name) => match optional_text_spec(self.description, 0, DESCRIPTION_MAX as nat) {
                Err(e) => Err(e),
                Ok(description) => match html_spec(
                    self.content,
                    Markup::Project.allowed(),
                    1,
                    CONTENT_MAX as nat,
                ) {
                    Err(e) => Err(e),
                    Ok(content) => Ok(ProjectPatch { name, description, content, ..self }),
                },
            },
        }
    }

    /// The fields of the form, by name. Categories, assets and files have
    /// tables of their own and are no fields.
    pub open spec fn entries(self) -> Seq<(Seq<char>, Option<FieldSpec>)> {
        seq![
            ("name"@, text_patch(self.name)),
            ("description"@, optional_text_patch(self.description)),
            ("content"@, text_patch(self.content)),
        ]
    }
}

/// Checks an update of a project and puts its texts in the form in which
/// they are stored. The update is refused exactly when the name is null,
/// empty after trimming or too long, the description is too long, or the
/// body is null or, once sanitized, empty or too long.
pub fn update_project(form: ProjectUpdateForm) -> (r: Result<ProjectUpdateForm, Failure>)
    ensures
        match form@.normalized() {
            Err(e) => r is Err && r->Err_0 == e,
            Ok(checked) => r is Ok && r->Ok_0@ == checked,
        },
{
    let name = match required_text(&form.name, 1, PROJECT_NAME_MAX) {
        Ok(name) => name,
        Err(e) => {
            return Err(e);
        },
    };
    let description = match optional_text(&form.description, 0, DESCRIPTION_MAX) {
        Ok(description) => description,
        Err(e) => {
            return Err(e);
        },
    };
    let content = match html(&form.content, Markup::Project, 1, CONTENT_MAX) {
        Ok(content) => content,
        Err(e) => {
            return Err(e);
        },
    };
    Ok(
        ProjectUpdateForm {
            name,
            description,
            content,
            categories: form.categories,
            assets: form.assets,
            files: form.files,
        },
    )
}

impl ProjectUpdateForm {
    /// Builds the field map of the update: the supplied texts.
    pub fn fields(&self) -> (r: FieldMap)
        ensures
            r.wf(),
            r@ == extracted(self@.entries()),
            r.order() == extracted_order(self@.entries()),
    {
        let mut form: Vec<FormField> = Vec::new();
        form.push(text_field("name", &self.name));
        form.push(optional_text_field("description", &self.description));
        form.push(text_field("content", &self.content));
        assert(form_view(form@) =~= self@.entries());
        extract_fields(&form)
    }
}

/// An update of a project or of a portfolio category writes known columns
/// only: a column that is written is one of the form's fields, and a field is
/// written exactly when it was supplied.
pub proof fn lemma_columns(project: ProjectPatch, category: CategoryPatch, key: Seq<char>)
    ensures
        extracted(project.entries()).contains_key(key) ==> key == "name"@ || key
            == "description"@ || key == "content"@,
        extracted(project.entries()).contains_key("name"@) <==> project.name.is_supplied(),
        extracted(project.entries()).contains_key("description"@)
            <==> project.description.is_supplied(),
        extracted(project.entries()).contains_key("content"@) <==> project.content.is_supplied(),
        extracted(category.entries()).contains_key(key) ==> key == "name"@ || key == "order"@,
        extracted(category.entries()).contains_key("name"@) <==> category.name.is_supplied(),
        extracted(category.entries()).contains_key("order"@) <==> category.order.is_supplied(),
{
    reveal_strlit("name");
    reveal_strlit("description");
    reveal_strlit("content");
    reveal_strlit("order");
    let entries = project.entries();
    lemma_extract_complete(entries, key);
    lemma_extract_complete(entries, "name"@);
    lemma_extract_complete(entries, "description"@);
    lemma_extract_complete(entries, "content"@);
    let fields = category.entries();
    lemma_extract_complete(fields, key);
    lemma_extract_complete(fields, "name"@);
    lemma_extract_complete(fields, "order"@);
    assert("name"@.len() == 4 && "description"@.len() == 11 && "content"@.len() == 7 && "order"@.len()
        == 5);
    assert(entries[0].0 == "name"@ && entries[1].0 == "description"@ && entries[2].0 == "content"@);
    assert(fields[0].0 == "name"@ && fields[1].0 == "order"@);
}

/// The stored paths of a sequence of assets.
pub open spec fn asset_paths(assets: Seq<Asset>) -> Seq<Seq<char>> {
    Seq::new(assets.len(), |i: int| assets[i].path@)
}

/// Schedules every file on disk of a project that is deleted: the four files
/// of each asset, asset by asset. The commit hands them out for removal, once
/// the store has deleted the project. Outside an open transaction nothing is
/// scheduled.
pub fn delete_project(operation: &mut Operation, assets: &Vec<Asset>) -> (ok: bool)
    ensures
        ok == (old(operation)@.phase == Phase::Writing),
        final(operation)@ == old(operation)@.doom_all(asset_paths(assets@)),
{
    let mut stored: Vec<String> = Vec::new();
    let mut i: usize = 0;
    let ghost paths = asset_paths(assets@);
    assert(texts(stored@) =~= paths.take(0));
    while i < assets.len()
        invariant
            i <= assets@.len(),
            paths == asset_paths(assets@),
            texts(stored@) == paths.take(i as int),
        decreases assets@.len() - i,
    {
        let ghost before = texts(stored@);
        stored.push(String::from_str(assets[i].path.as_str()));
        proof {
            assert(paths[i as int] == assets@[i as int].path@);
            assert(texts(stored@) =~= before.push(paths[i as int]));
            assert(paths.take(i + 1) =~= paths.take(i as int).push(paths[i as int]));
        }
        i += 1;
    }
    proof {
        assert(paths.take(assets@.len() as int) =~= paths);
    }
    operation.doom_all(&stored)
}

} // verus!

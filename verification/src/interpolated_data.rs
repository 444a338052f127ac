use vstd::prelude::*;

verus! {

/// What the `timescale` attributes of an item (a struct or one of its
/// fields) say, once read.
pub enum RenameArgs {
    /// The item has no `timescale` attribute.
    Absent,
    /// The item is renamed to the given column name.
    Rename(String),
    /// The attribute could not be read; the text says why.
    Invalid(String),
}

/// One item read from an item's `timescale` attributes, in order.
pub enum AttributeItem {
    /// `rename = "..."`, with the string's value.
    Rename(String),
    /// `rename = ` with something other than a string literal.
    RenameNotString,
    /// Any other item inside `timescale(...)`.
    Unexpected,
    /// A `timescale` attribute that is not of the form `timescale(...)`.
    NotList,
}

/// Why a `timescale` attribute cannot be read.
#[derive(Clone, Copy, Debug, PartialEq, Eq, Structural)]
pub enum AttributeProblem {
    ExpectedString,
    ExpectedRename,
    ExpectedList,
}

/// Reading the first `n` attribute items: the last rename read so far, or
/// the index of the first item that cannot be read and why.
pub open spec fn rename_reading(items: Seq<AttributeItem>, n: nat) -> Result<Option<Seq<char>>, (usize, AttributeProblem)>
    decreases n,
{
    if n == 0 {
        Ok(None)
    } else {
        match rename_reading(items, (n - 1) as nat) {
            Err(e) => Err(e),
            Ok(_) => match items[n - 1] {
                AttributeItem::Rename(name) => Ok(Some(name@)),
                AttributeItem::RenameNotString => Err(((n - 1) as usize, AttributeProblem::ExpectedString)),
                AttributeItem::Unexpected => Err(((n - 1) as usize, AttributeProblem::ExpectedRename)),
                AttributeItem::NotList => Err(((n - 1) as usize, AttributeProblem::ExpectedList)),
            },
        }
    }
}

/// Reads the column name that an item's `timescale` attributes give it: the
/// last `rename = "..."`, none where there is none, and the first item that
/// cannot be read, by its index, where there is one.
pub fn read_rename(items: &Vec<AttributeItem>) -> (r: Result<Option<String>, (usize, AttributeProblem)>)
    ensures
        match rename_reading(items@, items.len() as nat) {
            Ok(name) => r matches Ok(read) && read.deep_view() == name,
            Err(e) => r == Err::<Option<String>, (usize, AttributeProblem)>(e),
        },
{
    let mut name: Option<String> = None;
    let mut i: usize = 0;
    while i < items.len()
        invariant
            i <= items.len(),
            rename_reading(items@, i as nat) == Ok::<Option<Seq<char>>, (usize, AttributeProblem)>(name.deep_view()),
        decreases items.len() - i,
    {
        match &items[i] {
            AttributeItem::Rename(value) => {
                name = Some(value.clone());
            },
            AttributeItem::RenameNotString => {
                proof { lemma_reading_error_persists(items@, (i + 1) as nat, items.len() as nat); }
                return Err((i, AttributeProblem::ExpectedString));
            },
            AttributeItem::Unexpected => {
                proof { lemma_reading_error_persists(items@, (i + 1) as nat, items.len() as nat); }
                return Err((i, AttributeProblem::ExpectedRename));
            },
            AttributeItem::NotList => {
                proof { lemma_reading_error_persists(items@, (i + 1) as nat, items.len() as nat); }
                return Err((i, AttributeProblem::ExpectedList));
            },
        }
        i = i + 1;
    }
    Ok(name)
}

proof fn lemma_reading_error_persists(items: Seq<AttributeItem>, n: nat, m: nat)
    requires
        n <= m,
        rename_reading(items, n) is Err,
    ensures
        rename_reading(items, m) == rename_reading(items, n),
    decreases m,
{
    if n < m {
        lemma_reading_error_persists(items, n, (m - 1) as nat);
    }
}

/// The text of the error reported for an attribute that cannot be read.
pub open spec fn attribute_problem_message(p: AttributeProblem) -> Seq<char> {
    match p {
        AttributeProblem::ExpectedString => "expected a string"@,
        AttributeProblem::ExpectedRename => "expected `rename = \"...\"`"@,
        AttributeProblem::ExpectedList => "expected `timescale(rename = \"...\")`"@,
    }
}

impl AttributeProblem {
    /// The text of the error reported for an attribute that cannot be read.
    pub fn message(&self) -> (text: String)
        ensures
            text@ == attribute_problem_message(*self),
    {
        match self {
            AttributeProblem::ExpectedString => "expected a string".to_owned(),
            AttributeProblem::ExpectedRename => "expected `rename = \"...\"`".to_owned(),
            AttributeProblem::ExpectedList => "expected `timescale(rename = \"...\")`".to_owned(),
        }
    }
}

/// One named field of the struct that the derive is applied to.
pub struct FieldInput {
    /// The field's name.
    pub name: String,
    /// The last segment of the field's type, where the type is a path
    /// (such as `f64` or `units::Newton`); `None` for any other type.
    pub path_type: Option<String>,
    /// The field's `timescale` attributes.
    pub args: RenameArgs,
}

/// The fields of the struct that the derive is applied to.
pub enum FieldsInput {
    /// Named fields, in declaration order.
    Named(Vec<FieldInput>),
    /// Tuple fields or no fields at all.
    Unnamed,
}

/// The struct that the `InterpolatedData` derive is applied to.
pub struct StructInput {
    /// The struct's name.
    pub ident: String,
    /// The struct's own `timescale` attributes.
    pub args: RenameArgs,
    /// The struct's fields.
    pub fields: FieldsInput,
}

/// What the derive records of one field: its name and its column name.
pub struct TimescaleFieldData {
    pub name: String,
    pub rename: Option<String>,
}

/// What the derive records of a struct: its fields, their common type and
/// the struct's column name.
pub struct InterpolatedData {
    pub fields: Vec<TimescaleFieldData>,
    pub ty: String,
    pub rename: Option<String>,
}

/// The contents of a [`TimescaleFieldData`].
pub struct FieldDataView {
    pub name: Seq<char>,
    pub rename: Option<Seq<char>>,
}

/// The contents of an [`InterpolatedData`].
pub struct InterpolatedDataView {
    pub fields: Seq<FieldDataView>,
    pub ty: Seq<char>,
    pub rename: Option<Seq<char>>,
}

impl View for TimescaleFieldData {
    type V = FieldDataView;

    open spec fn view(&self) -> FieldDataView {
        FieldDataView { name: self.name@, rename: self.rename.deep_view() }
    }
}

impl View for InterpolatedData {
    type V = InterpolatedDataView;

    open spec fn view(&self) -> InterpolatedDataView {
        InterpolatedDataView {
            fields: self.fields@.map_values(|f: TimescaleFieldData| f@),
            ty: self.ty@,
            rename: self.rename.deep_view(),
        }
    }
}

/// Why the derive rejects a struct.
pub enum DeriveError {
    /// A `timescale` attribute could not be read: on the field with the given
    /// index, or on the struct itself (`None`).
    InvalidAttribute { field: Option<usize>, message: String },
    /// The field with index `index` has a type other than that of the
    /// first field with a path type.
    MixedFieldTypes { index: usize, first: String, found: String },
    /// No field has a path type.
    NoFields,
    /// The struct does not have named fields.
    UnnamedFields,
}

/// The contents of a [`DeriveError`].
pub enum DeriveErrorView {
    InvalidAttribute { field: Option<usize>, message: Seq<char> },
    MixedFieldTypes { index: usize, first: Seq<char>, found: Seq<char> },
    NoFields,
    UnnamedFields,
}

impl View for DeriveError {
    type V = DeriveErrorView;

    open spec fn view(&self) -> DeriveErrorView {
        match self {
            DeriveError::InvalidAttribute { field, message } => DeriveErrorView::InvalidAttribute {
                field: *field,
                message: message@,
            },
            DeriveError::MixedFieldTypes { index, first, found } => DeriveErrorView::MixedFieldTypes {
                index: *index,
                first: first@,
                found: found@,
            },
            DeriveError::NoFields => DeriveErrorView::NoFields,
            DeriveError::UnnamedFields => DeriveErrorView::UnnamedFields,
        }
    }
}

/// The text of the compile error that the derive reports for `e`.
pub open spec fn derive_error_message(e: DeriveErrorView) -> Seq<char> {
    match e {
        DeriveErrorView::InvalidAttribute { message, .. } => message,
        DeriveErrorView::MixedFieldTypes { first, found, .. } => "all fields in the struct must be the same type, found types "@
            + first + " and "@ + found,
        DeriveErrorView::NoFields => "struct must contain one or more fields"@,
        DeriveErrorView::UnnamedFields => "struct must have named fields"@,
    }
}

impl DeriveError {
    /// The text of the compile error that the derive reports.
    pub fn message(&self) -> (text: String)
        ensures
            text@ == derive_error_message(self@),
    {
        match self {
            DeriveError::InvalidAttribute { message, .. } => message.clone(),
            DeriveError::MixedFieldTypes { first, found, .. } => {
                let mut text = "all fields in the struct must be the same type, found types ".to_owned();
                text.append(first.as_str());
                text.append(" and ");
                text.append(found.as_str());
                text
            },
            DeriveError::NoFields => "struct must contain one or more fields".to_owned(),
            DeriveError::UnnamedFields => "struct must have named fields".to_owned(),
        }
    }
}

/// The contents of the result of the derive's analysis.
pub open spec fn analysis_view(r: Result<InterpolatedData, DeriveError>) -> Result<InterpolatedDataView, DeriveErrorView> {
    match r {
        Ok(d) => Ok(d@),
        Err(e) => Err(e@),
    }
}

/// The column name that attributes give an item.
pub open spec fn rename_of(args: RenameArgs) -> Option<Seq<char>> {
    match args {
        RenameArgs::Rename(name) => Some(name@),
        _ => None,
    }
}

/// The state of the walk over the fields: the common type found so far and
/// the fields recorded so far.
pub struct ScanView {
    pub ty: Option<Seq<char>>,
    pub fields: Seq<FieldDataView>,
}

/// One step of the walk over the fields, at the field with index `index`:
/// a field whose type is not a path is passed over; any other field has its
/// attributes read, is recorded, and must have the type of the first one.
pub open spec fn scan_step(st: ScanView, f: FieldInput, index: usize) -> Result<ScanView, DeriveErrorView> {
    match f.path_type {
        None => Ok(st),
        Some(t) => match f.args {
            RenameArgs::Invalid(m) => Err(DeriveErrorView::InvalidAttribute { field: Some(index), message: m@ }),
            _ => {
                let fields = st.fields.push(FieldDataView { name: f.name@, rename: rename_of(f.args) });
                match st.ty {
                    Some(first) => if first == t@ {
                        Ok(ScanView { ty: Some(first), fields })
                    } else {
                        Err(DeriveErrorView::MixedFieldTypes { index, first, found: t@ })
                    },
                    None => Ok(ScanView { ty: Some(t@), fields }),
                }
            },
        },
    }
}

/// The walk over the first `n` fields, stopping at the first error.
pub open spec fn scan_fields(fields: Seq<FieldInput>, n: nat) -> Result<ScanView, DeriveErrorView>
    decreases n,
{
    if n == 0 {
        Ok(ScanView { ty: None, fields: Seq::empty() })
    } else {
        match scan_fields(fields, (n - 1) as nat) {
            Err(e) => Err(e),
            Ok(st) => scan_step(st, fields[n - 1], (n - 1) as usize),
        }
    }
}

/// What the `InterpolatedData` derive makes of a struct.
pub open spec fn interpolated_data_spec(input: StructInput) -> Result<InterpolatedDataView, DeriveErrorView> {
    match input.fields {
        FieldsInput::Unnamed => Err(DeriveErrorView::UnnamedFields),
        FieldsInput::Named(fs) => match input.args {
            RenameArgs::Invalid(m) => Err(DeriveErrorView::InvalidAttribute { field: None, message: m@ }),
            _ => match scan_fields(fs@, fs.len() as nat) {
                Err(e) => Err(e),
                Ok(st) => match st.ty {
                    Some(ty) => Ok(InterpolatedDataView { fields: st.fields, ty, rename: rename_of(input.args) }),
                    None => Err(DeriveErrorView::NoFields),
                },
            },
        },
    }
}

/// Once the walk has stopped at an error, walking further fields keeps it.
proof fn lemma_scan_error_persists(fields: Seq<FieldInput>, n: nat, m: nat)
    requires
        n <= m,
        scan_fields(fields, n) is Err,
    ensures
        scan_fields(fields, m) == scan_fields(fields, n),
    decreases m,
{
    if n < m {
        lemma_scan_error_persists(fields, n, (m - 1) as nat);
    }
}

/// The column name that attributes give an item, as an owned value.
fn rename_value(args: &RenameArgs) -> (r: Option<String>)
    ensures
        r.deep_view() == rename_of(*args),
{
    match args {
        RenameArgs::Rename(name) => Some(name.clone()),
        _ => None,
    }
}

/// The analysis behind the `InterpolatedData` derive: reads the struct's
/// attributes, records each field whose type is a path (in order, with its
/// column name), and checks that all of those fields have one type.
pub fn interpolated_data(input: &StructInput) -> (r: Result<InterpolatedData, DeriveError>)
    ensures
        analysis_view(r) == interpolated_data_spec(*input),
{
    let fs = match &input.fields {
        FieldsInput::Unnamed => {
            return Err(DeriveError::UnnamedFields);
        },
        FieldsInput::Named(fs) => fs,
    };
    if let RenameArgs::Invalid(m) = &input.args {
        return Err(DeriveError::InvalidAttribute { field: None, message: m.clone() });
    }
    let rename = rename_value(&input.args);
    let mut ty: Option<String> = None;
    let mut fields: Vec<TimescaleFieldData> = Vec::new();
    let mut i: usize = 0;
    assert(fields@.map_values(|f: TimescaleFieldData| f@) =~= Seq::<FieldDataView>::empty());
    while i < fs.len()
        invariant
            i <= fs.len(),
            input.fields == FieldsInput::Named(*fs),
            !(input.args is Invalid),
            rename.deep_view() == rename_of(input.args),
            scan_fields(fs@, i as nat) == Ok::<ScanView, DeriveErrorView>(ScanView {
                ty: ty.deep_view(),
                fields: fields@.map_values(|f: TimescaleFieldData| f@),
            }),
        decreases fs.len() - i,
    {
        let f = &fs[i];
        let ghost before = fields@.map_values(|f: TimescaleFieldData| f@);
        match &f.path_type {
            None => {},
            Some(t) => {
                if let RenameArgs::Invalid(m) = &f.args {
                    proof { lemma_scan_error_persists(fs@, (i + 1) as nat, fs.len() as nat); }
                    return Err(DeriveError::InvalidAttribute { field: Some(i), message: m.clone() });
                }
                fields.push(TimescaleFieldData { name: f.name.clone(), rename: rename_value(&f.args) });
                assert(fields@.map_values(|f: TimescaleFieldData| f@) =~= before.push(
                    FieldDataView { name: f.name@, rename: rename_of(f.args) },
                ));
                match &ty {
                    Some(first) => {
                        if !(*first == *t) {
                            proof { lemma_scan_error_persists(fs@, (i + 1) as nat, fs.len() as nat); }
                            return Err(DeriveError::MixedFieldTypes {
                                index: i,
                                first: first.clone(),
                                found: t.clone(),
                            });
                        }
                    },
                    None => {
                        ty = Some(t.clone());
                    },
                }
            },
        }
        i = i + 1;
    }
    match ty {
        Some(ty) => Ok(InterpolatedData { fields, ty, rename }),
        None => Err(DeriveError::NoFields),
    }
}

/// What the derive records of a field, where it records it: the fields whose
/// type is a path, with their column names.
pub open spec fn recorded_field(f: FieldInput) -> Option<FieldDataView> {
    match f.path_type {
        Some(_) => Some(FieldDataView { name: f.name@, rename: rename_of(f.args) }),
        None => None,
    }
}

proof fn lemma_scan_records_path_fields(fields: Seq<FieldInput>, n: nat)
    requires
        n <= fields.len(),
        scan_fields(fields, n) is Ok,
    ensures
        scan_fields(fields, n)->Ok_0.fields == fields.take(n as int).filter_map(|f: FieldInput| recorded_field(f)),
        forall|i: int| 0 <= i < n && (#[trigger] fields[i]).path_type is Some ==> {
            &&& scan_fields(fields, n)->Ok_0.ty == Some(fields[i].path_type->0@)
            &&& !(fields[i].args is Invalid)
        },
        scan_fields(fields, n)->Ok_0.ty is Some ==> exists|i: int| 0 <= i < n && (#[trigger] fields[i]).path_type is Some,
    decreases n,
{
    if n == 0 {
        assert(fields.take(0) =~= Seq::<FieldInput>::empty());
    } else {
        lemma_scan_records_path_fields(fields, (n - 1) as nat);
        assert(fields.take(n as int).drop_last() =~= fields.take(n - 1));
        let st = scan_fields(fields, (n - 1) as nat)->Ok_0;
        let f = fields[n - 1];
        if st.ty is Some {
            let w: int = choose|i: int| 0 <= i < n - 1 && (#[trigger] fields[i]).path_type is Some;
            assert(st.ty == Some(fields[w].path_type->0@));
        }
    }
}

/// Law: an accepted struct keeps the column name of its own attributes,
/// whatever its fields: the name a `rename` gives it, none where it has no
/// `timescale` attribute.
pub proof fn lemma_accepted_struct_keeps_its_column_name(input: StructInput)
    requires
        interpolated_data_spec(input) is Ok,
    ensures
        match input.args {
            RenameArgs::Rename(name) => interpolated_data_spec(input)->Ok_0.rename == Some(name@),
            _ => interpolated_data_spec(input)->Ok_0.rename is None,
        },
{
}

/// Law: attributes whose items are all renames read as the last of them,
/// and as no column name where there is none.
pub proof fn lemma_renames_read_as_last(items: Seq<AttributeItem>)
    requires
        forall|i: int| 0 <= i < items.len() ==> #[trigger] items[i] is Rename,
    ensures
        items.len() == 0 ==> rename_reading(items, items.len()) == Ok::<Option<Seq<char>>, (usize, AttributeProblem)>(None),
        items.len() > 0 ==> rename_reading(items, items.len()) == Ok::<Option<Seq<char>>, (usize, AttributeProblem)>(
            Some(items[items.len() - 1]->Rename_0@),
        ),
{
    if items.len() > 0 {
        lemma_renames_prefix_ok(items, (items.len() - 1) as nat);
    }
}

proof fn lemma_renames_prefix_ok(items: Seq<AttributeItem>, n: nat)
    requires
        n <= items.len(),
        forall|i: int| 0 <= i < items.len() ==> #[trigger] items[i] is Rename,
    ensures
        rename_reading(items, n) is Ok,
    decreases n,
{
    if n > 0 {
        lemma_renames_prefix_ok(items, (n - 1) as nat);
    }
}

/// Law: attributes with an item that cannot be read are reported at the
/// first such item, with the problem that item has: a `rename` without a
/// string, another item, or an attribute that is not a list.
pub proof fn lemma_first_unreadable_item_reported(items: Seq<AttributeItem>, k: int)
    requires
        0 <= k < items.len() <= usize::MAX,
        !(items[k] is Rename),
        forall|i: int| 0 <= i < k ==> #[trigger] items[i] is Rename,
    ensures
        rename_reading(items, items.len()) == Err::<Option<Seq<char>>, (usize, AttributeProblem)>((
            k as usize,
            match items[k] {
                AttributeItem::RenameNotString => AttributeProblem::ExpectedString,
                AttributeItem::Unexpected => AttributeProblem::ExpectedRename,
                _ => AttributeProblem::ExpectedList,
            },
        )),
{
    lemma_renames_before_ok(items, k as nat, k as nat);
    lemma_reading_error_persists(items, (k + 1) as nat, items.len() as nat);
}

proof fn lemma_renames_before_ok(items: Seq<AttributeItem>, k: nat, n: nat)
    requires
        n <= k < items.len(),
        forall|i: int| 0 <= i < k ==> #[trigger] items[i] is Rename,
    ensures
        rename_reading(items, n) is Ok,
    decreases n,
{
    if n > 0 {
        lemma_renames_before_ok(items, k, (n - 1) as nat);
    }
}

/// What the derive records of a sequence of fields.
pub open spec fn recorded_fields(fs: Seq<FieldInput>) -> Seq<FieldDataView> {
    fs.filter_map(|f: FieldInput| recorded_field(f))
}

proof fn lemma_record_all_path_fields(fs: Seq<FieldInput>)
    requires
        forall|i: int| 0 <= i < fs.len() ==> #[trigger] fs[i].path_type is Some,
    ensures
        recorded_fields(fs).len() == fs.len(),
        forall|i: int| 0 <= i < fs.len() ==> {
            &&& (#[trigger] recorded_fields(fs)[i]).name == fs[i].name@
            &&& recorded_fields(fs)[i].rename == match fs[i].args {
                RenameArgs::Rename(name) => Some(name@),
                _ => None,
            }
        },
    decreases fs.len(),
{
    if fs.len() > 0 {
        let rest = fs.drop_last();
        lemma_record_all_path_fields(rest);
        assert(recorded_fields(fs) == recorded_fields(rest)
            + seq![recorded_field(fs.last())->Some_0]);
        assert forall|i: int| 0 <= i < fs.len() implies {
            &&& (#[trigger] recorded_fields(fs)[i]).name == fs[i].name@
            &&& recorded_fields(fs)[i].rename == match fs[i].args {
                RenameArgs::Rename(name) => Some(name@),
                _ => None,
            }
        } by {
            if i < fs.len() - 1 {
                assert(rest[i] == fs[i]);
                assert(recorded_fields(rest)[i].name == rest[i].name@);
            }
        }
    }
}

/// Law: an accepted struct all of whose fields have a path type records
/// every field, in order, under its own name and with the column name that
/// its attributes give it.
pub proof fn lemma_accepted_struct_records_each_field(input: StructInput)
    requires
        interpolated_data_spec(input) is Ok,
        input.fields is Named,
        forall|i: int| 0 <= i < (input.fields->Named_0)@.len() ==> #[trigger] (input.fields->Named_0)@[i].path_type is Some,
    ensures
        interpolated_data_spec(input)->Ok_0.fields.len() == (input.fields->Named_0)@.len(),
        forall|i: int| 0 <= i < (input.fields->Named_0)@.len() ==> {
            &&& (#[trigger] interpolated_data_spec(input)->Ok_0.fields[i]).name == (input.fields->Named_0)@[i].name@
            &&& interpolated_data_spec(input)->Ok_0.fields[i].rename == match (input.fields->Named_0)@[i].args {
                RenameArgs::Rename(name) => Some(name@),
                _ => None,
            }
        },
{
    let fs = (input.fields->Named_0)@;
    lemma_accepted_struct_fields(input);
    lemma_record_all_path_fields(fs);
}

/// Law: the derive rejects a struct without named fields as such, reports
/// an unreadable attribute on the struct itself before looking at its
/// fields, and rejects a struct none of whose fields has a path type as
/// having no fields.
pub proof fn lemma_derive_rejections(input: StructInput)
    ensures
        input.fields is Unnamed ==> interpolated_data_spec(input) == Err::<InterpolatedDataView, DeriveErrorView>(
            DeriveErrorView::UnnamedFields,
        ),
        input.fields is Named ==> (input.args matches RenameArgs::Invalid(m) ==> interpolated_data_spec(input) == Err::<
            InterpolatedDataView,
            DeriveErrorView,
        >(DeriveErrorView::InvalidAttribute { field: None, message: m@ })),
        input.fields is Named && !(input.args is Invalid) && (forall|i: int|
            0 <= i < (input.fields->Named_0)@.len() ==> #[trigger] (input.fields->Named_0)@[i].path_type is None)
            ==> interpolated_data_spec(input) == Err::<InterpolatedDataView, DeriveErrorView>(DeriveErrorView::NoFields),
{
    if input.fields is Named && !(input.args is Invalid) {
        let fs = (input.fields->Named_0)@;
        if forall|i: int| 0 <= i < fs.len() ==> #[trigger] fs[i].path_type is None {
            lemma_scan_accepts_one_type(fs, fs.len(), Seq::empty());
            lemma_scan_records_path_fields(fs, fs.len());
        }
    }
}

/// Law: a struct that the derive accepts has every field whose type is a
/// path recorded, in order and with its column name, no other field
/// recorded, and all those fields of the one recorded type.
pub proof fn lemma_accepted_struct_fields(input: StructInput)
    requires
        interpolated_data_spec(input) is Ok,
    ensures
        input.fields is Named,
        interpolated_data_spec(input)->Ok_0.fields
            == (input.fields->Named_0)@.filter_map(|f: FieldInput| recorded_field(f)),
        forall|i: int| 0 <= i < (input.fields->Named_0)@.len()
            && (#[trigger] (input.fields->Named_0)@[i]).path_type is Some
            ==> (input.fields->Named_0)@[i].path_type->0@ == interpolated_data_spec(input)->Ok_0.ty,
{
    let fs = (input.fields->Named_0)@;
    lemma_scan_records_path_fields(fs, fs.len());
    assert(fs.take(fs.len() as int) =~= fs);
}

proof fn lemma_scan_accepts_one_type(fields: Seq<FieldInput>, n: nat, t: Seq<char>)
    requires
        n <= fields.len(),
        forall|i: int| 0 <= i < n && (#[trigger] fields[i]).path_type is Some ==> {
            &&& fields[i].path_type->0@ == t
            &&& !(fields[i].args is Invalid)
        },
    ensures
        scan_fields(fields, n) is Ok,
        scan_fields(fields, n)->Ok_0.ty is Some ==> scan_fields(fields, n)->Ok_0.ty == Some(t),
        (exists|i: int| 0 <= i < n && (#[trigger] fields[i]).path_type is Some) ==> scan_fields(fields, n)->Ok_0.ty
            is Some,
    decreases n,
{
    if n > 0 {
        lemma_scan_accepts_one_type(fields, (n - 1) as nat, t);
        if exists|i: int| 0 <= i < n && (#[trigger] fields[i]).path_type is Some {
            let w: int = choose|i: int| 0 <= i < n && (#[trigger] fields[i]).path_type is Some;
            if w < n - 1 {
                assert(exists|i: int| 0 <= i < n - 1 && (#[trigger] fields[i]).path_type is Some);
            }
        }
    }
}

/// Law: the derive accepts a struct with named fields whose attributes all
/// read, where at least one field has a path type and all such fields
/// share one type, and it records that type.
pub proof fn lemma_struct_of_one_type_accepted(input: StructInput, t: Seq<char>)
    requires
        input.fields is Named,
        !(input.args is Invalid),
        forall|i: int| 0 <= i < (input.fields->Named_0)@.len()
            && (#[trigger] (input.fields->Named_0)@[i]).path_type is Some ==> {
            &&& (input.fields->Named_0)@[i].path_type->0@ == t
            &&& !((input.fields->Named_0)@[i].args is Invalid)
        },
        exists|i: int| 0 <= i < (input.fields->Named_0)@.len()
            && (#[trigger] (input.fields->Named_0)@[i]).path_type is Some,
    ensures
        interpolated_data_spec(input) is Ok,
        interpolated_data_spec(input)->Ok_0.ty == t,
{
    let fs = (input.fields->Named_0)@;
    lemma_scan_accepts_one_type(fs, fs.len(), t);
}

proof fn lemma_scan_mismatch(fields: Seq<FieldInput>, n: nat)
    requires
        n <= fields.len(),
        n <= usize::MAX + 1,
        scan_fields(fields, n) matches Err(DeriveErrorView::MixedFieldTypes { .. }),
    ensures
        ({
            let e = scan_fields(fields, n)->Err_0;
            let index = e->MixedFieldTypes_index as int;
            &&& index < n
            &&& fields[index].path_type matches Some(found) && found@ == e->MixedFieldTypes_found
            &&& !(fields[index].args is Invalid)
            &&& e->MixedFieldTypes_found != e->MixedFieldTypes_first
            &&& exists|j: int| 0 <= j < index && (#[trigger] fields[j]).path_type is Some
            &&& forall|j: int| 0 <= j < index && (#[trigger] fields[j]).path_type is Some ==> {
                &&& fields[j].path_type->0@ == e->MixedFieldTypes_first
                &&& !(fields[j].args is Invalid)
            }
        }),
    decreases n,
{
    if scan_fields(fields, (n - 1) as nat) is Err {
        lemma_scan_mismatch(fields, (n - 1) as nat);
    } else {
        lemma_scan_records_path_fields(fields, (n - 1) as nat);
        let st = scan_fields(fields, (n - 1) as nat)->Ok_0;
        let f = fields[n - 1];
        assert(scan_fields(fields, n) == scan_step(st, f, (n - 1) as usize));
        assert(f.path_type is Some);
        assert(!(f.args is Invalid));
        assert(st.ty is Some);
        let e = scan_fields(fields, n)->Err_0;
        assert(e->MixedFieldTypes_index == n - 1);
        assert(st.ty == Some(e->MixedFieldTypes_first));
    }
}

/// Law: where the derive rejects a struct for mixed field types, the field
/// it names is the first field with a path type whose type differs from
/// that of the first such field: every path-typed field before it has the
/// reported first type, and the named field has the reported other type.
pub proof fn lemma_mixed_types_names_first_mismatch(input: StructInput)
    requires
        interpolated_data_spec(input) matches Err(DeriveErrorView::MixedFieldTypes { .. }),
    ensures
        ({
            let fs = (input.fields->Named_0)@;
            let e = interpolated_data_spec(input)->Err_0;
            let index = e->MixedFieldTypes_index as int;
            &&& input.fields is Named
            &&& 0 <= index < fs.len()
            &&& fs[index].path_type matches Some(found) && found@ == e->MixedFieldTypes_found
            &&& e->MixedFieldTypes_found != e->MixedFieldTypes_first
            &&& exists|j: int| 0 <= j < index && (#[trigger] fs[j]).path_type is Some
            &&& forall|j: int| 0 <= j < index && (#[trigger] fs[j]).path_type is Some ==> fs[j].path_type->0@
                == e->MixedFieldTypes_first
        }),
{
    let fs = (input.fields->Named_0)@;
    assert(fs.len() == (input.fields->Named_0).len());
    lemma_scan_mismatch(fs, fs.len());
}

/// A name found in the entries: the data of the last entry under that name.
pub open spec fn registry_lookup(entries: Seq<(String, InterpolatedData)>, name: Seq<char>) -> Option<InterpolatedDataView>
    decreases entries.len(),
{
    if entries.len() == 0 {
        None
    } else if entries.last().0@ == name {
        Some(entries.last().1@)
    } else {
        registry_lookup(entries.drop_last(), name)
    }
}

/// The table of structs that the `InterpolatedData` derive has accepted, by
/// struct name, for the table derives that build on them.
pub struct InterpolatedRegistry {
    entries: Vec<(String, InterpolatedData)>,
}

impl View for InterpolatedRegistry {
    type V = Map<Seq<char>, InterpolatedDataView>;

    closed spec fn view(&self) -> Map<Seq<char>, InterpolatedDataView> {
        Map::new(
            |name: Seq<char>| registry_lookup(self.entries@, name) is Some,
            |name: Seq<char>| registry_lookup(self.entries@, name)->Some_0,
        )
    }
}

impl InterpolatedRegistry {
    /// An empty table.
    pub fn new() -> (registry: Self)
        ensures
            registry@ == Map::<Seq<char>, InterpolatedDataView>::empty(),
    {
        let registry = InterpolatedRegistry { entries: Vec::new() };
        assert(registry@ =~= Map::<Seq<char>, InterpolatedDataView>::empty());
        registry
    }

    /// Records `data` under `name`, in place of what was recorded there.
    pub fn insert(&mut self, name: String, data: InterpolatedData)
        ensures
            final(self)@ == old(self)@.insert(name@, data@),
    {
        let ghost key = name@;
        let ghost value = data@;
        self.entries.push((name, data));
        proof {
            let e = self.entries@;
            assert(e.drop_last() =~= old(self).entries@);
            assert forall|k: Seq<char>| #[trigger] registry_lookup(e, k) == (if k == key {
                Some(value)
            } else {
                registry_lookup(old(self).entries@, k)
            }) by {}
            assert(self@ =~= old(self)@.insert(key, value));
        }
    }

    /// The data recorded under `name`.
    pub fn lookup(&self, name: &str) -> (r: Option<&InterpolatedData>)
        ensures
            match r {
                Some(d) => self@.contains_key(name@) && d@ == self@[name@],
                None => !self@.contains_key(name@),
            },
    {
        let key = name.to_owned();
        let mut i: usize = self.entries.len();
        assert(self.entries@.take(i as int) =~= self.entries@);
        while i > 0
            invariant
                i <= self.entries@.len(),
                key@ == name@,
                registry_lookup(self.entries@, name@) == registry_lookup(self.entries@.take(i as int), name@),
            decreases i,
        {
            assert(self.entries@.take(i as int).drop_last() =~= self.entries@.take(i - 1));
            if self.entries[i - 1].0 == key {
                return Some(&self.entries[i - 1].1);
            }
            i = i - 1;
        }
        assert(self.entries@.take(0) =~= Seq::<(String, InterpolatedData)>::empty());
        None
    }
}

/// Law: once the derive has accepted a struct, looking its name up in the
/// registry gives what the derive made of it, and every other name gives
/// what it gave before.
pub proof fn lemma_derived_struct_is_found(before: Map<Seq<char>, InterpolatedDataView>, input: StructInput, name: Seq<char>)
    requires
        interpolated_data_spec(input) is Ok,
    ensures
        ({
            let after = before.insert(input.ident@, interpolated_data_spec(input)->Ok_0);
            &&& after.contains_key(input.ident@)
            &&& after[input.ident@] == interpolated_data_spec(input)->Ok_0
            &&& name != input.ident@ ==> (after.contains_key(name) == before.contains_key(name) && after[name] == before[name])
        }),
{
}

/// The `InterpolatedData` derive: analyses the struct and, where it is
/// accepted, records it in `registry` under the struct's name. A rejected
/// struct leaves the registry as it was.
pub fn derive(input: &StructInput, registry: &mut InterpolatedRegistry) -> (r: Result<(), DeriveError>)
    ensures
        match interpolated_data_spec(*input) {
            Ok(d) => r is Ok && final(registry)@ == old(registry)@.insert(input.ident@, d),
            Err(e) => r matches Err(err) && err@ == e && final(registry)@ == old(registry)@,
        },
{
    match interpolated_data(input) {
        Ok(data) => {
            registry.insert(input.ident.clone(), data);
            Ok(())
        },
        Err(e) => Err(e),
    }
}

} // verus!

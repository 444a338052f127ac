use vstd::prelude::*;

use crate::decimal::{decimal, format_usize};

verus! {

/// Where one serialized value of a timescale data point comes from.
#[derive(Clone, Copy, Debug, PartialEq, Eq, Structural)]
pub enum SerializedSource {
    /// The `time` field that the attribute adds.
    Time,
    /// Component `axis` (0, 1 or 2: x, y or z) of the struct's field with
    /// index `field`.
    Axis { field: usize, axis: usize },
}

/// One serialized value: its key and where it comes from.
pub struct SerializedField {
    pub key: String,
    pub source: SerializedSource,
}

/// What the `timescale_data` attribute generates for a struct: a `time`
/// field added in front of the struct's fields, and a serializer that
/// writes the listed values in order.
pub struct TimescaleDataPlan {
    /// The serialized values, in order.
    pub fields: Vec<SerializedField>,
    /// The field count handed to `serialize_struct`: the struct's fields and
    /// `time`.
    pub field_count: usize,
}

/// Why the `timescale_data` attribute rejects its input.
#[derive(Clone, Copy, Debug, PartialEq, Eq, Structural)]
pub enum TimescaleDataError {
    /// The attribute was given arguments; it takes none.
    UnexpectedArguments { count: usize },
    /// The struct does not have named fields.
    UnnamedFields,
}

/// The suffix of the key of component `axis`.
pub open spec fn axis_suffix(axis: nat) -> Seq<char> {
    if axis == 0 {
        "_x"@
    } else if axis == 1 {
        "_y"@
    } else {
        "_z"@
    }
}

/// The key of the first serialized value.
pub open spec fn time_key() -> Seq<char> {
    "time"@
}

/// The key and source of serialized value `i` (for `i` up to three times
/// the number of fields): `time` first, then the x, y and z components of
/// each field in turn.
pub open spec fn serialized_key(names: Seq<Seq<char>>, i: nat) -> Seq<char> {
    if i == 0 {
        time_key()
    } else {
        names[(i - 1) / 3] + axis_suffix(((i - 1) % 3) as nat)
    }
}

pub open spec fn serialized_source(i: nat) -> SerializedSource {
    if i == 0 {
        SerializedSource::Time
    } else {
        SerializedSource::Axis { field: ((i - 1) / 3) as usize, axis: ((i - 1) % 3) as usize }
    }
}

/// The plan for a struct whose named fields are `names`, as views.
pub open spec fn plan_matches(plan: TimescaleDataPlan, names: Seq<Seq<char>>) -> bool {
    &&& plan.fields.len() == 3 * names.len() + 1
    &&& forall|i: int| 0 <= i < plan.fields.len() ==> {
        &&& (#[trigger] plan.fields[i]).key@ == serialized_key(names, i as nat)
        &&& plan.fields[i].source == serialized_source(i as nat)
    }
    &&& plan.field_count == names.len() + 1
}

fn axis_suffix_str(axis: usize) -> (s: &'static str)
    requires
        axis < 3,
    ensures
        s@ == axis_suffix(axis as nat),
{
    if axis == 0 {
        "_x"
    } else if axis == 1 {
        "_y"
    } else {
        "_z"
    }
}

/// The `timescale_data` attribute, given the number of its arguments and
/// the struct's named fields (`None` when its fields are not named): the
/// attribute takes no arguments, and the struct must have named fields.
pub fn timescale_data(argument_count: usize, field_names: &Option<Vec<String>>) -> (r: Result<TimescaleDataPlan, TimescaleDataError>)
    requires
        field_names matches Some(names) ==> names.len() < usize::MAX,
    ensures
        argument_count > 0 ==> r == Err::<TimescaleDataPlan, TimescaleDataError>(
            TimescaleDataError::UnexpectedArguments { count: argument_count },
        ),
        argument_count == 0 && field_names is None ==> r == Err::<TimescaleDataPlan, TimescaleDataError>(
            TimescaleDataError::UnnamedFields,
        ),
        argument_count == 0 && field_names is Some ==> (r matches Ok(plan) && plan_matches(
            plan,
            field_names->Some_0@.map_values(|s: String| s@),
        )),
{
    if argument_count > 0 {
        return Err(TimescaleDataError::UnexpectedArguments { count: argument_count });
    }
    let names = match field_names {
        None => {
            return Err(TimescaleDataError::UnnamedFields);
        },
        Some(names) => names,
    };
    let ghost views = names@.map_values(|s: String| s@);
    let mut fields: Vec<SerializedField> = Vec::new();
    fields.push(SerializedField { key: "time".to_owned(), source: SerializedSource::Time });
    let mut k: usize = 0;
    while k < names.len()
        invariant
            k <= names.len(),
            names.len() < usize::MAX,
            views == names@.map_values(|s: String| s@),
            fields.len() == 3 * k + 1,
            forall|i: int| 0 <= i < fields.len() ==> {
                &&& (#[trigger] fields[i]).key@ == serialized_key(views, i as nat)
                &&& fields[i].source == serialized_source(i as nat)
            },
        decreases names.len() - k,
    {
        let mut axis: usize = 0;
        while axis < 3
            invariant
                k < names.len(),
                views == names@.map_values(|s: String| s@),
                axis <= 3,
                fields.len() == 3 * k + 1 + axis,
                forall|i: int| 0 <= i < fields.len() ==> {
                    &&& (#[trigger] fields[i]).key@ == serialized_key(views, i as nat)
                    &&& fields[i].source == serialized_source(i as nat)
                },
            decreases 3 - axis,
        {
            let mut key = names[k].clone();
            key.append(axis_suffix_str(axis));
            let ghost before = fields;
            fields.push(SerializedField { key, source: SerializedSource::Axis { field: k, axis } });
            proof {
                let i: int = 3 * k + 1 + axis;
                assert((i - 1) / 3 == k && (i - 1) % 3 == axis);
                assert forall|j: int| 0 <= j < fields.len() implies {
                    &&& (#[trigger] fields[j]).key@ == serialized_key(views, j as nat)
                    &&& fields[j].source == serialized_source(j as nat)
                } by {
                    if j < i {
                        assert(fields[j] == before[j]);
                    }
                }
            }
            axis = axis + 1;
        }
        k = k + 1;
    }
    Ok(TimescaleDataPlan { fields, field_count: names.len() + 1 })
}

proof fn lemma_axis_suffix(axis: nat)
    requires
        axis < 3,
    ensures
        axis_suffix(axis).len() == 2,
        axis_suffix(axis)[1] == (if axis == 0 { 'x' } else if axis == 1 { 'y' } else { 'z' }),
{
    reveal_strlit("_x");
    reveal_strlit("_y");
    reveal_strlit("_z");
}

/// Law: where the struct's field names are distinct, as Rust makes them,
/// every serialized value has a key of its own, so no column of a
/// timescale data point hides another.
pub proof fn lemma_serialized_keys_distinct(names: Seq<Seq<char>>, i: nat, j: nat)
    requires
        forall|a: int, b: int| 0 <= a < b < names.len() ==> names[a] != names[b],
        i < j < 3 * names.len() + 1,
    ensures
        serialized_key(names, i) != serialized_key(names, j),
{
    reveal_strlit("time");
    let kj = serialized_key(names, j);
    let aj: nat = ((j - 1) % 3) as nat;
    lemma_axis_suffix(aj);
    let nj = names[(j - 1) / 3];
    assert(kj[kj.len() - 1] == axis_suffix(aj)[1]);
    if i == 0 {
        assert(time_key()[3] == 'e');
    } else {
        let ki = serialized_key(names, i);
        let ai: nat = ((i - 1) % 3) as nat;
        lemma_axis_suffix(ai);
        let ni = names[(i - 1) / 3];
        assert(ki[ki.len() - 1] == axis_suffix(ai)[1]);
        if ai == aj && ki == kj {
            assert(ki.subrange(0, ki.len() - 2) =~= ni);
            assert(kj.subrange(0, kj.len() - 2) =~= nj);
            assert((i - 1) / 3 != (j - 1) / 3);
        }
    }
}

/// Law: the serializer writes `time` first, then for each field `k` in
/// order its components: value `3k + 1 + a` reads component `a` of field
/// `k`, under the field's name followed by `_x`, `_y` or `_z` for component
/// 0, 1 or 2.
pub proof fn lemma_serialized_value_reads_its_component(names: Seq<Seq<char>>, k: int, a: int)
    requires
        0 <= k < names.len(),
        0 <= a < 3,
    ensures
        serialized_key(names, 0) == seq!['t', 'i', 'm', 'e'],
        serialized_source(0) == SerializedSource::Time,
        serialized_source((3 * k + 1 + a) as nat) == (SerializedSource::Axis { field: k as usize, axis: a as usize }),
        serialized_key(names, (3 * k + 1 + a) as nat) == names[k] + (if a == 0 {
            seq!['_', 'x']
        } else if a == 1 {
            seq!['_', 'y']
        } else {
            seq!['_', 'z']
        }),
{
    reveal_strlit("time");
    reveal_strlit("_x");
    reveal_strlit("_y");
    reveal_strlit("_z");
    let i: int = 3 * k + 1 + a;
    assert((i - 1) / 3 == k && (i - 1) % 3 == a);
}

/// Law: a plan for a struct whose fields are named `names` hands
/// `serialize_struct` the struct's field count plus one for `time`, and
/// serializes `time` first, then the three components of each field in
/// order, each under the field's name followed by `_x`, `_y` or `_z`.
pub proof fn lemma_plan_layout(plan: TimescaleDataPlan, names: Seq<Seq<char>>, k: int, a: int)
    requires
        plan_matches(plan, names),
        0 <= k < names.len(),
        0 <= a < 3,
    ensures
        plan.field_count == names.len() + 1,
        plan.fields.len() == 3 * names.len() + 1,
        plan.fields[0].key@ == seq!['t', 'i', 'm', 'e'],
        plan.fields[0].source == SerializedSource::Time,
        plan.fields[3 * k + 1 + a].source == (SerializedSource::Axis { field: k as usize, axis: a as usize }),
        plan.fields[3 * k + 1 + a].key@ == names[k] + (if a == 0 {
            seq!['_', 'x']
        } else if a == 1 {
            seq!['_', 'y']
        } else {
            seq!['_', 'z']
        }),
{
    lemma_serialized_value_reads_its_component(names, k, a);
    assert(plan.fields[0].key@ == serialized_key(names, 0));
    assert(plan.fields[3 * k + 1 + a].key@ == serialized_key(names, (3 * k + 1 + a) as nat));
}

/// The text of the compile error that the attribute reports for `e`.
pub open spec fn timescale_data_error_message(e: TimescaleDataError) -> Seq<char> {
    match e {
        TimescaleDataError::UnexpectedArguments { count } => "this function takes 0 arguments but "@
            + decimal(count as nat) + " arguments were supplied"@,
        TimescaleDataError::UnnamedFields => "Structs must have named fields"@,
    }
}

impl TimescaleDataError {
    /// The text of the compile error that the attribute reports.
    pub fn message(&self) -> (text: String)
        ensures
            text@ == timescale_data_error_message(*self),
    {
        match self {
            TimescaleDataError::UnexpectedArguments { count } => {
                let mut text = "this function takes 0 arguments but ".to_owned();
                let number = format_usize(*count);
                text.append(number.as_str());
                text.append(" arguments were supplied");
                text
            },
            TimescaleDataError::UnnamedFields => "Structs must have named fields".to_owned(),
        }
    }
}

} // verus!

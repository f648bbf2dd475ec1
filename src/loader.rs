use vstd::prelude::*;
use crate::document::{DocValue, field, find_key, key_index};
use crate::fraction::{FractionNotationError, callable, fraction_notation_to_angle, fraction_value, models};
use crate::map::{RoadIndex, RoadMap, RoadNode, successor_lists, validation_error};
use crate::road::{Road, RoadTurnDirection, direction_of_notation};
use crate::text::{decimal, decimal_text, dotted, dotted_path, integer_decimal_text, integer_text};

verus! {

/// The error that the TOML parser reports for a malformed document.
#[verifier::external_type_specification]
#[verifier::external_body]
pub struct ExTomlError(toml::de::Error);

/// Why a map document does not describe a road map. Paths name the offending
/// field with dots, as in `roads.<key>.start_x`.
#[derive(Debug)]
#[allow(inconsistent_fields)]
pub enum RoadMapDeserializationError {
    /// The text is not a valid TOML document.
    InvalidFormat { error: toml::de::Error },
    MissingField { path: String },
    InvalidFieldType { path: String },
    UnknowRoadType { path: String, value: String },
    InvalidFractionNotation { path: String, error: FractionNotationError },
    InvalidDirectionNotation { path: String },
    UnknownRoadReferece { reference: String },
    RoadMapError { error: crate::map::RoadMapError },
}

/// A loader error with its texts as character sequences.
pub enum LoadFailure {
    InvalidFormat,
    MissingField(Seq<char>),
    InvalidFieldType(Seq<char>),
    UnknowRoadType(Seq<char>, Seq<char>),
    InvalidFractionNotation(Seq<char>, FractionNotationError),
    InvalidDirectionNotation(Seq<char>),
    UnknownRoadReferece(Seq<char>),
    RoadMapError(crate::map::RoadMapError),
}

impl View for RoadMapDeserializationError {
    type V = LoadFailure;

    open spec fn view(&self) -> LoadFailure {
        match self {
            RoadMapDeserializationError::InvalidFormat { .. } => LoadFailure::InvalidFormat,
            RoadMapDeserializationError::MissingField { path } => LoadFailure::MissingField(path@),
            RoadMapDeserializationError::InvalidFieldType { path } => LoadFailure::InvalidFieldType(
                path@,
            ),
            RoadMapDeserializationError::UnknowRoadType { path, value } => LoadFailure::UnknowRoadType(
                path@,
                value@,
            ),
            RoadMapDeserializationError::InvalidFractionNotation {
                path,
                error,
            } => LoadFailure::InvalidFractionNotation(path@, *error),
            RoadMapDeserializationError::InvalidDirectionNotation {
                path,
            } => LoadFailure::InvalidDirectionNotation(path@),
            RoadMapDeserializationError::UnknownRoadReferece {
                reference,
            } => LoadFailure::UnknownRoadReferece(reference@),
            RoadMapDeserializationError::RoadMapError { error } => LoadFailure::RoadMapError(*error),
        }
    }
}

/// `r` is the result that `spec` describes, its error seen as characters.
pub open spec fn result_matches<T>(r: Result<T, RoadMapDeserializationError>, spec: Result<T, LoadFailure>) -> bool {
    match r {
        Ok(x) => spec == Ok::<T, LoadFailure>(x),
        Err(e) => spec == Err::<T, LoadFailure>(e@),
    }
}

/// The number in field `name` of a table found at path `context`.
pub open spec fn float_field<N>(table: Seq<(String, DocValue<N>)>, context: Seq<char>, name: Seq<char>) -> Result<N, LoadFailure> {
    match field(table, name) {
        None => Err(LoadFailure::MissingField(dotted(context, name))),
        Some(DocValue::Float(x)) => Ok(x),
        Some(_) => Err(LoadFailure::InvalidFieldType(dotted(context, name))),
    }
}

/// The text in field `name` of a table found at path `context`.
pub open spec fn text_field<N>(table: Seq<(String, DocValue<N>)>, context: Seq<char>, name: Seq<char>) -> Result<Seq<char>, LoadFailure> {
    match field(table, name) {
        None => Err(LoadFailure::MissingField(dotted(context, name))),
        Some(DocValue::Text(s)) => Ok(s@),
        Some(_) => Err(LoadFailure::InvalidFieldType(dotted(context, name))),
    }
}

fn read_float<N: Copy>(table: &Vec<(String, DocValue<N>)>, context: &str, name: &str) -> (r: Result<N, RoadMapDeserializationError>)
    ensures
        r matches Ok(x) ==> float_field(table@, context@, name@) == Ok::<N, LoadFailure>(x),
        r matches Err(e) ==> float_field(table@, context@, name@) == Err::<N, LoadFailure>(e@),
{
    match find_key(table, name) {
        None => Err(RoadMapDeserializationError::MissingField { path: dotted_path(context, name) }),
        Some(i) => match &table[i].1 {
            DocValue::Float(x) => Ok(*x),
            _ => Err(RoadMapDeserializationError::InvalidFieldType { path: dotted_path(context, name) }),
        },
    }
}

fn read_text<'a, N>(table: &'a Vec<(String, DocValue<N>)>, context: &str, name: &str) -> (r: Result<&'a str, RoadMapDeserializationError>)
    ensures
        r matches Ok(s) ==> text_field(table@, context@, name@) == Ok::<Seq<char>, LoadFailure>(s@),
        r matches Err(e) ==> text_field(table@, context@, name@) == Err::<Seq<char>, LoadFailure>(e@),
{
    match find_key(table, name) {
        None => Err(RoadMapDeserializationError::MissingField { path: dotted_path(context, name) }),
        Some(i) => match &table[i].1 {
            DocValue::Text(s) => Ok(s.as_str()),
            _ => Err(RoadMapDeserializationError::InvalidFieldType { path: dotted_path(context, name) }),
        },
    }
}

/// The straight road that the table at path `context` describes.
pub open spec fn line_value<N>(t: Seq<(String, DocValue<N>)>, context: Seq<char>) -> Result<Road<N>, LoadFailure> {
    match float_field(t, context, "start_x"@) {
        Err(e) => Err(e),
        Ok(sx) => match float_field(t, context, "start_y"@) {
            Err(e) => Err(e),
            Ok(sy) => match float_field(t, context, "end_x"@) {
                Err(e) => Err(e),
                Ok(ex) => match float_field(t, context, "end_y"@) {
                    Err(e) => Err(e),
                    Ok(ey) => Ok(Road::Line { start: (sx, sy), end: (ex, ey) }),
                },
            },
        },
    }
}

/// The angle in field `name`, written as a fraction of pi.
pub open spec fn angle_field<N>(
    text: Seq<char>,
    context: Seq<char>,
    name: Seq<char>,
    pm: spec_fn(Seq<char>) -> Option<N>,
    am: spec_fn(N, N) -> N,
) -> Result<N, LoadFailure> {
    match fraction_value(text, pm, am) {
        Ok(v) => Ok(v),
        Err(e) => Err(LoadFailure::InvalidFractionNotation(dotted(context, name), e)),
    }
}

/// The turn that the table at path `context` describes.
pub open spec fn turn_value<N>(
    t: Seq<(String, DocValue<N>)>,
    context: Seq<char>,
    pm: spec_fn(Seq<char>) -> Option<N>,
    am: spec_fn(N, N) -> N,
) -> Result<Road<N>, LoadFailure> {
    match float_field(t, context, "x"@) {
        Err(e) => Err(e),
        Ok(x) => match float_field(t, context, "y"@) {
            Err(e) => Err(e),
            Ok(y) => match float_field(t, context, "r"@) {
                Err(e) => Err(e),
                Ok(r) => match text_field(t, context, "start"@) {
                    Err(e) => Err(e),
                    Ok(start) => match text_field(t, context, "end"@) {
                        Err(e) => Err(e),
                        Ok(end) => match text_field(t, context, "dir"@) {
                            Err(e) => Err(e),
                            Ok(dir) => match angle_field(start, context, "start"@, pm, am) {
                                Err(e) => Err(e),
                                Ok(start_angle) => match angle_field(end, context, "end"@, pm, am) {
                                    Err(e) => Err(e),
                                    Ok(end_angle) => match direction_of_notation(dir) {
                                        None => Err(LoadFailure::InvalidDirectionNotation(dotted(context, "dir"@))),
                                        Some(direction) => Ok(
                                            Road::Turn { coordinates: (x, y), radius: r, start_angle, end_angle, direction },
                                        ),
                                    },
                                },
                            },
                        },
                    },
                },
            },
        },
    }
}

/// The road that entry `key` of the `roads` table describes.
pub open spec fn road_value<N>(
    key: Seq<char>,
    entry: DocValue<N>,
    pm: spec_fn(Seq<char>) -> Option<N>,
    am: spec_fn(N, N) -> N,
) -> Result<Road<N>, LoadFailure> {
    let context = dotted("roads"@, key);
    match entry {
        DocValue::Table(t) => match text_field(t@, context, "type"@) {
            Err(e) => Err(e),
            Ok(kind) => if kind == "Line"@ {
                line_value(t@, context)
            } else if kind == "Turn"@ {
                turn_value(t@, context, pm, am)
            } else {
                Err(LoadFailure::UnknowRoadType(dotted(context, "type"@), kind))
            },
        },
        _ => Err(LoadFailure::InvalidFieldType(context)),
    }
}

fn read_line<N: Copy>(t: &Vec<(String, DocValue<N>)>, context: &str) -> (r: Result<Road<N>, RoadMapDeserializationError>)
    ensures
        r matches Ok(x) ==> line_value(t@, context@) == Ok::<Road<N>, LoadFailure>(x),
        r matches Err(e) ==> line_value(t@, context@) == Err::<Road<N>, LoadFailure>(e@),
{
    let sx = match read_float(t, context, "start_x") {
        Ok(v) => v,
        Err(e) => return Err(e),
    };
    let sy = match read_float(t, context, "start_y") {
        Ok(v) => v,
        Err(e) => return Err(e),
    };
    let ex = match read_float(t, context, "end_x") {
        Ok(v) => v,
        Err(e) => return Err(e),
    };
    let ey = match read_float(t, context, "end_y") {
        Ok(v) => v,
        Err(e) => return Err(e),
    };
    Ok(Road::Line { start: (sx, sy), end: (ex, ey) })
}

fn read_angle<N, P: Fn(&str) -> Option<N>, A: Fn(N, N) -> N>(
    text: &str,
    context: &str,
    name: &str,
    parse: &P,
    angle: &A,
) -> (r: Result<N, RoadMapDeserializationError>)
    requires
        callable(*parse, *angle),
    ensures
        forall|pm: spec_fn(Seq<char>) -> Option<N>, am: spec_fn(N, N) -> N|
            #[trigger] models(*parse, *angle, pm, am) ==> result_matches(r, angle_field(text@, context@, name@, pm, am)),
{
    match fraction_notation_to_angle(text, parse, angle) {
        Ok(v) => Ok(v),
        Err(error) => Err(RoadMapDeserializationError::InvalidFractionNotation { path: dotted_path(context, name), error }),
    }
}

fn read_turn<N: Copy, P: Fn(&str) -> Option<N>, A: Fn(N, N) -> N>(
    t: &Vec<(String, DocValue<N>)>,
    context: &str,
    parse: &P,
    angle: &A,
) -> (r: Result<Road<N>, RoadMapDeserializationError>)
    requires
        callable(*parse, *angle),
    ensures
        forall|pm: spec_fn(Seq<char>) -> Option<N>, am: spec_fn(N, N) -> N|
            #[trigger] models(*parse, *angle, pm, am) ==> result_matches(r, turn_value(t@, context@, pm, am)),
{
    let x = match read_float(t, context, "x") {
        Ok(v) => v,
        Err(e) => return Err(e),
    };
    let y = match read_float(t, context, "y") {
        Ok(v) => v,
        Err(e) => return Err(e),
    };
    let radius = match read_float(t, context, "r") {
        Ok(v) => v,
        Err(e) => return Err(e),
    };
    let start = match read_text(t, context, "start") {
        Ok(v) => v,
        Err(e) => return Err(e),
    };
    let end = match read_text(t, context, "end") {
        Ok(v) => v,
        Err(e) => return Err(e),
    };
    let dir = match read_text(t, context, "dir") {
        Ok(v) => v,
        Err(e) => return Err(e),
    };
    let start_angle = match read_angle(start, context, "start", parse, angle) {
        Ok(v) => v,
        Err(e) => return Err(e),
    };
    let end_angle = match read_angle(end, context, "end", parse, angle) {
        Ok(v) => v,
        Err(e) => return Err(e),
    };
    let direction = match RoadTurnDirection::from_notation(dir) {
        Some(d) => d,
        None => return Err(RoadMapDeserializationError::InvalidDirectionNotation { path: dotted_path(context, "dir") }),
    };
    Ok(Road::Turn { coordinates: (x, y), radius, start_angle, end_angle, direction })
}

/// Reads entry `key` of the `roads` table as a road.
pub fn read_road<N: Copy, P: Fn(&str) -> Option<N>, A: Fn(N, N) -> N>(
    key: &str,
    entry: &DocValue<N>,
    parse: &P,
    angle: &A,
) -> (r: Result<Road<N>, RoadMapDeserializationError>)
    requires
        callable(*parse, *angle),
    ensures
        forall|pm: spec_fn(Seq<char>) -> Option<N>, am: spec_fn(N, N) -> N|
            #[trigger] models(*parse, *angle, pm, am) ==> result_matches(r, road_value(key@, *entry, pm, am)),
{
    let context = dotted_path("roads", key);
    match entry {
        DocValue::Table(t) => {
            let kind = match read_text(t, context.as_str(), "type") {
                Ok(v) => v,
                Err(e) => return Err(e),
            };
            if crate::text::text_equals(kind, "Line") {
                read_line(t, context.as_str())
            } else if crate::text::text_equals(kind, "Turn") {
                read_turn(t, context.as_str(), parse, angle)
            } else {
                Err(RoadMapDeserializationError::UnknowRoadType {
                    path: dotted_path(context.as_str(), "type"),
                    value: String::from_str(kind),
                })
            }
        },
        _ => Err(RoadMapDeserializationError::InvalidFieldType { path: context }),
    }
}

/// The reference to a road that a successor item names, if it is a text or an
/// integer; an integer names the road keyed by its decimal numeral.
pub open spec fn reference_text<N>(v: DocValue<N>) -> Option<Seq<char>> {
    match v {
        DocValue::Text(s) => Some(s@),
        DocValue::Integer(i) => Some(integer_text(i as int)),
        _ => None,
    }
}

/// The path of item `i` of the array at path `context`.
pub open spec fn item_path(context: Seq<char>, i: nat) -> Seq<char> {
    context + seq!['['] + decimal(i) + seq![']']
}

/// The references named by the first `i` items of a successor array.
pub open spec fn references_upto<N>(items: Seq<DocValue<N>>, context: Seq<char>, i: nat) -> Result<Seq<Seq<char>>, LoadFailure>
    decreases i,
{
    if i == 0 {
        Ok(seq![])
    } else {
        match references_upto(items, context, (i - 1) as nat) {
            Err(e) => Err(e),
            Ok(s) => match reference_text(items[i - 1]) {
                None => Err(LoadFailure::InvalidFieldType(item_path(context, (i - 1) as nat))),
                Some(t) => Ok(s.push(t)),
            },
        }
    }
}

/// The successor references that entry `key` of the `nodes` table lists.
pub open spec fn references_value<N>(key: Seq<char>, nodes: Seq<(String, DocValue<N>)>) -> Result<Seq<Seq<char>>, LoadFailure> {
    let context = dotted("nodes"@, key);
    match field(nodes, key) {
        None => Err(LoadFailure::MissingField(context)),
        Some(DocValue::Array(items)) => references_upto(items@, context, items@.len()),
        Some(_) => Err(LoadFailure::InvalidFieldType(context)),
    }
}

/// The texts of a list of strings.
pub open spec fn texts(v: Seq<String>) -> Seq<Seq<char>> {
    v.map_values(|s: String| s@)
}

proof fn lemma_references_error_stays<N>(items: Seq<DocValue<N>>, context: Seq<char>, i: nat, k: nat)
    requires
        i <= k,
        references_upto(items, context, i) is Err,
    ensures
        references_upto(items, context, k) == references_upto(items, context, i),
    decreases k - i,
{
    if i < k {
        lemma_references_error_stays(items, context, i, (k - 1) as nat);
    }
}

fn item_path_text(context: &str, i: usize) -> (r: String)
    ensures
        r@ == item_path(context@, i as nat),
{
    let mut s = String::from_str(context);
    proof {
        reveal_strlit("[");
        reveal_strlit("]");
    }
    s.append("[");
    let digits = decimal_text(i as u64);
    s.append(digits.as_str());
    s.append("]");
    s
}

/// Reads the successor references that entry `key` of the `nodes` table lists.
pub fn read_references<N>(key: &str, nodes: &Vec<(String, DocValue<N>)>) -> (r: Result<Vec<String>, RoadMapDeserializationError>)
    ensures
        r matches Ok(v) ==> references_value(key@, nodes@) == Ok::<Seq<Seq<char>>, LoadFailure>(texts(v@)),
        r matches Err(e) ==> references_value(key@, nodes@) == Err::<Seq<Seq<char>>, LoadFailure>(e@),
{
    let context = dotted_path("nodes", key);
    let i = match find_key(nodes, key) {
        None => return Err(RoadMapDeserializationError::MissingField { path: context }),
        Some(i) => i,
    };
    let items = match &nodes[i].1 {
        DocValue::Array(items) => items,
        _ => return Err(RoadMapDeserializationError::InvalidFieldType { path: context }),
    };
    let mut out: Vec<String> = Vec::new();
    assert(texts(out@) =~= seq![]);
    let mut j: usize = 0;
    while j < items.len()
        invariant
            0 <= j <= items@.len(),
            references_value(key@, nodes@) == references_upto(items@, context@, items@.len()),
            references_upto(items@, context@, j as nat) == Ok::<Seq<Seq<char>>, LoadFailure>(texts(out@)),
        decreases items.len() - j,
    {
        let reference = match &items[j] {
            DocValue::Text(s) => s.clone(),
            DocValue::Integer(v) => integer_decimal_text(*v),
            _ => {
                proof {
                    lemma_references_error_stays(items@, context@, (j + 1) as nat, items@.len());
                }
                return Err(RoadMapDeserializationError::InvalidFieldType { path: item_path_text(context.as_str(), j) });
            },
        };
        let ghost before = out@;
        out.push(reference);
        assert(texts(out@) =~= texts(before).push(reference@));
        j += 1;
    }
    Ok(out)
}

/// `reference` is the key of an entry of the `roads` table.
pub open spec fn resolves<N>(roads: Seq<(String, DocValue<N>)>, reference: Seq<char>) -> bool {
    key_index(roads, reference) < roads.len()
}

/// Every reference of every row names a road.
pub open spec fn all_resolve<N>(roads: Seq<(String, DocValue<N>)>, refs: Seq<Seq<Seq<char>>>) -> bool {
    forall|i: int, j: int|
        0 <= i < refs.len() && 0 <= j < refs[i].len() ==> resolves(roads, #[trigger] refs[i][j])
}

/// `refs[i][j]` is the first reference, row by row, that names no road.
pub open spec fn is_first_unresolved<N>(
    roads: Seq<(String, DocValue<N>)>,
    refs: Seq<Seq<Seq<char>>>,
    i: int,
    j: int,
) -> bool {
    &&& 0 <= i < refs.len()
    &&& 0 <= j < refs[i].len()
    &&& !resolves(roads, refs[i][j])
    &&& forall|a: int, b: int|
        0 <= a < i && 0 <= b < refs[a].len() ==> resolves(roads, #[trigger] refs[a][b])
    &&& forall|b: int| 0 <= b < j ==> resolves(roads, #[trigger] refs[i][b])
}

/// Each reference replaced by the position of the road it names.
pub open spec fn resolved_lists<N>(roads: Seq<(String, DocValue<N>)>, refs: Seq<Seq<Seq<char>>>) -> Seq<Seq<RoadIndex>> {
    refs.map_values(|row: Seq<Seq<char>>| row.map_values(|t: Seq<char>| key_index(roads, t) as RoadIndex))
}

/// The texts of rows of strings.
pub open spec fn text_rows(rows: Seq<Vec<String>>) -> Seq<Seq<Seq<char>>> {
    rows.map_values(|v: Vec<String>| texts(v@))
}

/// The contents of rows of indices.
pub open spec fn index_rows(rows: Seq<Vec<RoadIndex>>) -> Seq<Seq<RoadIndex>> {
    rows.map_values(|v: Vec<RoadIndex>| v@)
}

/// Replaces each successor reference by the position of the road whose key it
/// is; fails on the first reference, row by row, that names no road.
pub fn resolve_references<N>(roads: &Vec<(String, DocValue<N>)>, refs: &Vec<Vec<String>>) -> (r: Result<Vec<Vec<RoadIndex>>, RoadMapDeserializationError>)
    ensures
        r is Ok <==> all_resolve(roads@, text_rows(refs@)),
        r matches Ok(v) ==> index_rows(v@) == resolved_lists(roads@, text_rows(refs@)),
        r matches Err(e) ==> exists|i: int, j: int|
            is_first_unresolved(roads@, text_rows(refs@), i, j) && e@ == LoadFailure::UnknownRoadReferece(
                text_rows(refs@)[i][j],
            ),
{
    let ghost rows = text_rows(refs@);
    let mut out: Vec<Vec<RoadIndex>> = Vec::new();
    let mut i: usize = 0;
    while i < refs.len()
        invariant
            rows == text_rows(refs@),
            0 <= i <= refs@.len(),
            out@.len() == i,
            forall|a: int, b: int|
                0 <= a < i && 0 <= b < rows[a].len() ==> resolves(roads@, #[trigger] rows[a][b]),
            forall|a: int| 0 <= a < i ==> #[trigger] index_rows(out@)[a] == resolved_lists(roads@, rows)[a],
        decreases refs.len() - i,
    {
        let row = &refs[i];
        assert(texts(row@) == rows[i as int]);
        let mut indices: Vec<RoadIndex> = Vec::new();
        let mut j: usize = 0;
        while j < row.len()
            invariant
                rows == text_rows(refs@),
                0 <= i < refs@.len(),
                *row == refs@[i as int],
                texts(row@) == rows[i as int],
                0 <= j <= row@.len(),
                indices@.len() == j,
                forall|a: int, b: int|
                    0 <= a < i && 0 <= b < rows[a].len() ==> resolves(roads@, #[trigger] rows[a][b]),
                forall|b: int| 0 <= b < j ==> resolves(roads@, #[trigger] rows[i as int][b]),
                forall|b: int| 0 <= b < j ==> #[trigger] indices@[b] == key_index(roads@, rows[i as int][b]) as RoadIndex,
            decreases row.len() - j,
        {
            assert(rows[i as int][j as int] == row@[j as int]@);
            match find_key(roads, row[j].as_str()) {
                Some(k) => {
                    indices.push(k);
                },
                None => {
                    assert(is_first_unresolved(roads@, rows, i as int, j as int));
                    return Err(RoadMapDeserializationError::UnknownRoadReferece { reference: row[j].clone() });
                },
            }
            j += 1;
        }
        assert(indices@ == resolved_lists(roads@, rows)[i as int]);
        let ghost before = out@;
        out.push(indices);
        assert forall|a: int| 0 <= a <= i implies #[trigger] index_rows(out@)[a] == resolved_lists(
            roads@,
            rows,
        )[a] by {
            if a < i {
                assert(out@[a] == before[a]);
                assert(index_rows(before)[a] == before[a]@);
            }
        }
        i += 1;
    }
    assert(index_rows(out@) =~= resolved_lists(roads@, rows));
    Ok(out)
}

/// The roads and successor references of the first `i` entries of the
/// `roads` table, read in table order; or the first error met.
pub open spec fn entries_upto<N>(
    roads: Seq<(String, DocValue<N>)>,
    nodes: Seq<(String, DocValue<N>)>,
    pm: spec_fn(Seq<char>) -> Option<N>,
    am: spec_fn(N, N) -> N,
    i: nat,
) -> Result<(Seq<Road<N>>, Seq<Seq<Seq<char>>>), LoadFailure>
    decreases i,
{
    if i == 0 {
        Ok((seq![], seq![]))
    } else {
        match entries_upto(roads, nodes, pm, am, (i - 1) as nat) {
            Err(e) => Err(e),
            Ok((built, refs)) => match road_value(roads[i - 1].0@, roads[i - 1].1, pm, am) {
                Err(e) => Err(e),
                Ok(road) => match references_value(roads[i - 1].0@, nodes) {
                    Err(e) => Err(e),
                    Ok(next) => Ok((built.push(road), refs.push(next))),
                },
            },
        }
    }
}

/// The table in top-level field `name` of a document.
pub open spec fn table_field<N>(document: Seq<(String, DocValue<N>)>, name: Seq<char>) -> Result<Seq<(String, DocValue<N>)>, LoadFailure> {
    match field(document, name) {
        None => Err(LoadFailure::MissingField(name)),
        Some(DocValue::Table(t)) => Ok(t@),
        Some(_) => Err(LoadFailure::InvalidFieldType(name)),
    }
}

/// The `roads` table of a document with the roads and references read from
/// it, before references are resolved; or the first error met.
pub open spec fn document_entries<N>(
    document: Seq<(String, DocValue<N>)>,
    pm: spec_fn(Seq<char>) -> Option<N>,
    am: spec_fn(N, N) -> N,
) -> Result<(Seq<(String, DocValue<N>)>, Seq<Road<N>>, Seq<Seq<Seq<char>>>), LoadFailure> {
    match table_field(document, "roads"@) {
        Err(e) => Err(e),
        Ok(roads) => match table_field(document, "nodes"@) {
            Err(e) => Err(e),
            Ok(nodes) => match entries_upto(roads, nodes, pm, am, roads.len()) {
                Err(e) => Err(e),
                Ok((built, refs)) => Ok((roads, built, refs)),
            },
        },
    }
}

/// What loading `document` gives: `r` is the loader's result.
pub open spec fn load_outcome<N>(
    document: Seq<(String, DocValue<N>)>,
    pm: spec_fn(Seq<char>) -> Option<N>,
    am: spec_fn(N, N) -> N,
    r: Result<RoadMap<Road<N>>, RoadMapDeserializationError>,
) -> bool {
    match document_entries(document, pm, am) {
        Err(e0) => r matches Err(e) && e@ == e0,
        Ok((roads, built, refs)) => if !all_resolve(roads, refs) {
            r matches Err(e) && exists|i: int, j: int|
                is_first_unresolved(roads, refs, i, j) && e@ == LoadFailure::UnknownRoadReferece(refs[i][j])
        } else {
            match validation_error(resolved_lists(roads, refs)) {
                Some(me) => r matches Err(e) && e@ == LoadFailure::RoadMapError(me),
                None => r matches Ok(m) && m.roads() == built && m.lists() == resolved_lists(roads, refs),
            }
        },
    }
}

proof fn lemma_entries_error_stays<N>(
    roads: Seq<(String, DocValue<N>)>,
    nodes: Seq<(String, DocValue<N>)>,
    pm: spec_fn(Seq<char>) -> Option<N>,
    am: spec_fn(N, N) -> N,
    i: nat,
    k: nat,
)
    requires
        i <= k,
        entries_upto(roads, nodes, pm, am, i) is Err,
    ensures
        entries_upto(roads, nodes, pm, am, k) == entries_upto(roads, nodes, pm, am, i),
    decreases k - i,
{
    if i < k {
        lemma_entries_error_stays(roads, nodes, pm, am, i, (k - 1) as nat);
    }
}

fn read_table<'a, N>(document: &'a Vec<(String, DocValue<N>)>, name: &str) -> (r: Result<&'a Vec<(String, DocValue<N>)>, RoadMapDeserializationError>)
    ensures
        r matches Ok(t) ==> table_field(document@, name@) == Ok::<Seq<(String, DocValue<N>)>, LoadFailure>(t@),
        r matches Err(e) ==> table_field(document@, name@) == Err::<Seq<(String, DocValue<N>)>, LoadFailure>(e@),
{
    match find_key(document, name) {
        None => Err(RoadMapDeserializationError::MissingField { path: String::from_str(name) }),
        Some(i) => match &document[i].1 {
            DocValue::Table(t) => Ok(t),
            _ => Err(RoadMapDeserializationError::InvalidFieldType { path: String::from_str(name) }),
        },
    }
}

/// Builds a road map from a map document. The `roads` table gives one road per
/// entry, in table order; the `nodes` entry with the same key lists the keys
/// of its successors. `parse` reads the numbers of fraction-of-pi angles and
/// `angle` turns a numerator and a denominator into the angle they denote.
pub fn road_map_from_document<N: Copy, P: Fn(&str) -> Option<N>, A: Fn(N, N) -> N>(
    document: &Vec<(String, DocValue<N>)>,
    parse: &P,
    angle: &A,
) -> (r: Result<RoadMap<Road<N>>, RoadMapDeserializationError>)
    requires
        callable(*parse, *angle),
    ensures
        forall|pm: spec_fn(Seq<char>) -> Option<N>, am: spec_fn(N, N) -> N|
            #[trigger] models(*parse, *angle, pm, am) ==> load_outcome(document@, pm, am, r),
{
    let roads = match read_table(document, "roads") {
        Ok(t) => t,
        Err(e) => return Err(e),
    };
    let nodes = match read_table(document, "nodes") {
        Ok(t) => t,
        Err(e) => return Err(e),
    };
    let mut built: Vec<Road<N>> = Vec::new();
    let mut refs: Vec<Vec<String>> = Vec::new();
    assert(text_rows(refs@) =~= seq![]);
    assert(built@ =~= seq![]);
    let mut i: usize = 0;
    while i < roads.len()
        invariant
            built@.len() == i && refs@.len() == i,
            table_field(document@, "roads"@) == Ok::<Seq<(String, DocValue<N>)>, LoadFailure>(roads@),
            table_field(document@, "nodes"@) == Ok::<Seq<(String, DocValue<N>)>, LoadFailure>(nodes@),
            callable(*parse, *angle),
            0 <= i <= roads@.len(),
            forall|pm: spec_fn(Seq<char>) -> Option<N>, am: spec_fn(N, N) -> N|
                #[trigger] models(*parse, *angle, pm, am) ==> entries_upto(roads@, nodes@, pm, am, i as nat)
                    == Ok::<(Seq<Road<N>>, Seq<Seq<Seq<char>>>), LoadFailure>((built@, text_rows(refs@))),
        decreases roads.len() - i,
    {
        let key = roads[i].0.as_str();
        let road = match read_road(key, &roads[i].1, parse, angle) {
            Ok(road) => road,
            Err(e) => {
                proof {
                    assert forall|pm: spec_fn(Seq<char>) -> Option<N>, am: spec_fn(N, N) -> N|
                        #[trigger] models(*parse, *angle, pm, am) implies entries_upto(roads@, nodes@, pm, am, roads@.len())
                            == entries_upto(roads@, nodes@, pm, am, (i + 1) as nat) by {
                        lemma_entries_error_stays(roads@, nodes@, pm, am, (i + 1) as nat, roads@.len());
                    }
                }
                return Err(e);
            },
        };
        let next = match read_references(key, nodes) {
            Ok(next) => next,
            Err(e) => {
                proof {
                    assert forall|pm: spec_fn(Seq<char>) -> Option<N>, am: spec_fn(N, N) -> N|
                        #[trigger] models(*parse, *angle, pm, am) implies entries_upto(roads@, nodes@, pm, am, roads@.len())
                            == entries_upto(roads@, nodes@, pm, am, (i + 1) as nat) by {
                        lemma_entries_error_stays(roads@, nodes@, pm, am, (i + 1) as nat, roads@.len());
                    }
                }
                return Err(e);
            },
        };
        let ghost before = refs@;
        built.push(road);
        refs.push(next);
        assert(text_rows(refs@) =~= text_rows(before).push(texts(next@)));
        i += 1;
    }
    let lists = match resolve_references(roads, &refs) {
        Ok(lists) => lists,
        Err(e) => return Err(e),
    };
    assert(index_rows(lists@).len() == lists@.len());
    let ghost all_lists = index_rows(lists@);
    let ghost all_roads = built@;
    let mut lists = lists;
    let mut road_nodes: Vec<RoadNode<Road<N>>> = Vec::new();
    while built.len() > 0
        invariant
            built@.len() == lists@.len(),
            all_roads == road_nodes@.map_values(|n: RoadNode<Road<N>>| n.road) + built@,
            all_lists == successor_lists(road_nodes@) + index_rows(lists@),
        decreases built.len(),
    {
        let road = built.remove(0);
        let next = lists.remove(0);
        let ghost nodes_before = road_nodes@;
        let ghost lists_before = lists@;
        road_nodes.push(RoadNode { road, next });
        assert(road_nodes@.map_values(|n: RoadNode<Road<N>>| n.road) =~= nodes_before.map_values(|n: RoadNode<Road<N>>| n.road).push(road));
        assert(successor_lists(road_nodes@) =~= successor_lists(nodes_before).push(next@));
        assert(all_roads =~= road_nodes@.map_values(|n: RoadNode<Road<N>>| n.road) + built@);
        assert(all_lists =~= successor_lists(road_nodes@) + index_rows(lists@));
    }
    assert(all_roads =~= road_nodes@.map_values(|n: RoadNode<Road<N>>| n.road));
    assert(all_lists =~= successor_lists(road_nodes@));
    match RoadMap::new(road_nodes) {
        Ok(m) => Ok(m),
        Err(error) => Err(RoadMapDeserializationError::RoadMapError { error }),
    }
}

} // verus!

//! CSV export of a BOM calculation.
//!
//! Fixed columns, one row per consolidated item.  Fields holding a comma,
//! quote or line break are quoted, with quotes doubled; numeric fields are
//! rendered from their fixed-point representation with the shortest exact
//! decimal form (no trailing zeros).

use vstd::prelude::*;
use crate::bom::{BomCalculation, BomEngine, BomError, BomItemModel, item_model_fn};

verus! {

/// The character for one decimal digit.
pub open spec fn digit_char(d: int) -> char {
    if d == 0 { '0' }
    else if d == 1 { '1' }
    else if d == 2 { '2' }
    else if d == 3 { '3' }
    else if d == 4 { '4' }
    else if d == 5 { '5' }
    else if d == 6 { '6' }
    else if d == 7 { '7' }
    else if d == 8 { '8' }
    else { '9' }
}

/// Decimal digits of a non-negative integer, most significant first.
pub open spec fn dec_digits(n: int) -> Seq<char>
    decreases n,
{
    if n < 10 {
        seq![digit_char(n)]
    } else {
        dec_digits(n / 10).push(digit_char(n % 10))
    }
}

/// Drop trailing zero characters.
pub open spec fn trim_zeros(s: Seq<char>) -> Seq<char>
    decreases s.len(),
{
    if s.len() > 0 && s.last() == '0' {
        trim_zeros(s.drop_last())
    } else {
        s
    }
}

/// Decimal form of a value held in thousandths: the integer part, then a
/// point and the non-zero fraction digits, if any.
pub open spec fn milli_str(q: int) -> Seq<char> {
    let f = q % 1000;
    if f == 0 {
        dec_digits(q / 1000)
    } else {
        dec_digits(q / 1000) + seq!['.'] + trim_zeros(
            seq![digit_char(f / 100), digit_char(f / 10 % 10), digit_char(f % 10)],
        )
    }
}

/// Decimal form of a value held in millionths.
pub open spec fn micro_str(q: int) -> Seq<char> {
    let f = q % 1_000_000;
    if f == 0 {
        dec_digits(q / 1_000_000)
    } else {
        dec_digits(q / 1_000_000) + seq!['.'] + trim_zeros(
            seq![
                digit_char(f / 100_000),
                digit_char(f / 10_000 % 10),
                digit_char(f / 1000 % 10),
                digit_char(f / 100 % 10),
                digit_char(f / 10 % 10),
                digit_char(f % 10),
            ],
        )
    }
}

/// Whether a CSV field must be quoted.
pub open spec fn needs_quote(s: Seq<char>) -> bool {
    s.contains(',') || s.contains('"') || s.contains('\n') || s.contains('\r')
}

/// A field's text with every quote doubled.
pub open spec fn escape_quotes(s: Seq<char>) -> Seq<char>
    decreases s.len(),
{
    if s.len() == 0 {
        Seq::<char>::empty()
    } else {
        escape_quotes(s.drop_last()) + if s.last() == '"' {
            seq!['"', '"']
        } else {
            seq![s.last()]
        }
    }
}

/// A field as it stands in the file: quoted exactly when necessary.
pub open spec fn csv_field(s: Seq<char>) -> Seq<char> {
    if needs_quote(s) {
        seq!['"'] + escape_quotes(s) + seq!['"']
    } else {
        s
    }
}

/// Fields joined with commas.
pub open spec fn csv_fields_joined(fs: Seq<Seq<char>>) -> Seq<char>
    decreases fs.len(),
{
    if fs.len() == 0 {
        Seq::<char>::empty()
    } else if fs.len() == 1 {
        csv_field(fs[0])
    } else {
        csv_fields_joined(fs.drop_last()) + seq![','] + csv_field(fs.last())
    }
}

/// One record: its fields joined with commas, ended by a line feed.
pub open spec fn csv_row(fs: Seq<Seq<char>>) -> Seq<char> {
    csv_fields_joined(fs) + seq!['\n']
}

/// The nine fields of one item's row, in column order.
pub open spec fn item_record(m: BomItemModel) -> Seq<Seq<char>> {
    seq![
        m.code,
        m.name,
        milli_str(m.quantity_milli),
        m.unit.spec_name(),
        milli_str(m.unit_cost_milli),
        micro_str(m.total_cost_micro),
        m.discipline.spec_name(),
        m.category,
        match m.notes {
            Some(n) => n,
            None => Seq::<char>::empty(),
        },
    ]
}

/// Every item row has exactly nine fields, one per column of the header.
pub proof fn lemma_item_record_fields(m: BomItemModel)
    ensures
        item_record(m).len() == 9,
{
}

/// The data rows, one per item, in report order.
pub open spec fn csv_rows(models: Seq<BomItemModel>) -> Seq<char>
    decreases models.len(),
{
    if models.len() == 0 {
        Seq::<char>::empty()
    } else {
        csv_rows(models.drop_last()) + csv_row(item_record(models.last()))
    }
}

/// The whole export: the fixed header line, then the data rows.
pub open spec fn bom_csv(models: Seq<BomItemModel>) -> Seq<char> {
    "Material Code,Material Name,Quantity,Unit,Unit Cost,Total Cost,Discipline,Category,Notes\n"@
        + csv_rows(models)
}

pub open spec fn string_view_fn() -> spec_fn(String) -> Seq<char> {
    |s: String| s@
}

/// One digit as a string slice.
fn digit_str(d: u8) -> (r: &'static str)
    requires
        d < 10,
    ensures
        r@ == seq![digit_char(d as int)],
{
    proof {
        reveal_strlit("0");
        reveal_strlit("1");
        reveal_strlit("2");
        reveal_strlit("3");
        reveal_strlit("4");
        reveal_strlit("5");
        reveal_strlit("6");
        reveal_strlit("7");
        reveal_strlit("8");
        reveal_strlit("9");
    }
    let r = match d {
        0 => "0",
        1 => "1",
        2 => "2",
        3 => "3",
        4 => "4",
        5 => "5",
        6 => "6",
        7 => "7",
        8 => "8",
        _ => "9",
    };
    proof {
        assert(r@.len() == 1);
        assert(r@[0] == digit_char(d as int));
        assert(r@ =~= seq![digit_char(d as int)]);
    }
    r
}

/// Append the decimal digits of `n`.
fn push_dec(out: &mut String, n: u128)
    ensures
        final(out)@ == old(out)@ + dec_digits(n as int),
    decreases n,
{
    if n < 10 {
        out.append(digit_str(n as u8));
        proof {
            assert(out@ =~= old(out)@ + dec_digits(n as int));
        }
    } else {
        push_dec(out, n / 10);
        out.append(digit_str((n % 10) as u8));
        proof {
            assert(out@ =~= old(out)@ + dec_digits(n as int));
        }
    }
}

/// The decimal digits of `n` as a string.
fn u128_to_dec(n: u128) -> (r: String)
    ensures
        r@ == dec_digits(n as int),
{
    let mut out = String::new();
    push_dec(&mut out, n);
    proof {
        assert(out@ =~= dec_digits(n as int));
    }
    out
}

/// The shortest exact decimal form of a value held in thousandths.
fn milli_to_string(q: u128) -> (r: String)
    ensures
        r@ == milli_str(q as int),
{
    let mut out = u128_to_dec(q / 1000);
    let f = q % 1000;
    if f > 0 {
        out.append(".");
        let d1 = (f / 100) as u8;
        let d2 = (f / 10 % 10) as u8;
        let d3 = (f % 10) as u8;
        let ghost digits = seq![
            digit_char(d1 as int),
            digit_char(d2 as int),
            digit_char(d3 as int),
        ];
        if d3 != 0 {
            out.append(digit_str(d1));
            out.append(digit_str(d2));
            out.append(digit_str(d3));
            proof {
                assert(trim_zeros(digits) =~= digits);
            }
        } else if d2 != 0 {
            out.append(digit_str(d1));
            out.append(digit_str(d2));
            proof {
                reveal_with_fuel(trim_zeros, 4);
                assert(digits.last() == '0');
                assert(digit_char(d2 as int) != '0');
                assert(digits.drop_last() =~= seq![
                    digit_char(d1 as int),
                    digit_char(d2 as int),
                ]);
                assert(trim_zeros(digits) =~= digits.drop_last());
            }
        } else {
            out.append(digit_str(d1));
            proof {
                reveal_with_fuel(trim_zeros, 4);
                assert(digits.last() == '0');
                assert(digits.drop_last() =~= seq![
                    digit_char(d1 as int),
                    digit_char(d2 as int),
                ]);
                assert(digits.drop_last().last() == '0');
                assert(digits.drop_last().drop_last() =~= seq![digit_char(d1 as int)]);
                assert(trim_zeros(digits) =~= seq![digit_char(d1 as int)]);
            }
        }
        proof {
            reveal_strlit(".");
            assert(out@ =~= milli_str(q as int));
        }
    } else {
        proof {
            assert(out@ =~= milli_str(q as int));
        }
    }
    out
}

/// The shortest exact decimal form of a value held in millionths.
fn micro_to_string(q: u128) -> (r: String)
    ensures
        r@ == micro_str(q as int),
{
    let mut out = u128_to_dec(q / 1_000_000);
    let f = q % 1_000_000;
    if f > 0 {
        out.append(".");
        let mut digits_left: u128 = 100_000;
        let ghost digits = seq![
            digit_char((f / 100_000) as int),
            digit_char((f / 10_000 % 10) as int),
            digit_char((f / 1000 % 10) as int),
            digit_char((f / 100 % 10) as int),
            digit_char((f / 10 % 10) as int),
            digit_char((f % 10) as int),
        ];
        // how many of the six fraction digits to print: all up to the last
        // non-zero one
        let keep: usize = if f % 10 != 0 {
            6
        } else if f % 100 != 0 {
            5
        } else if f % 1000 != 0 {
            4
        } else if f % 10_000 != 0 {
            3
        } else if f % 100_000 != 0 {
            2
        } else {
            1
        };
        proof {
            assert(trim_zeros(digits) =~= digits.take(keep as int)) by {
                reveal_with_fuel(trim_zeros, 7);
                assert(digits.drop_last() =~= digits.take(5));
                assert(digits.take(5).drop_last() =~= digits.take(4));
                assert(digits.take(4).drop_last() =~= digits.take(3));
                assert(digits.take(3).drop_last() =~= digits.take(2));
                assert(digits.take(2).drop_last() =~= digits.take(1));
                assert(digits.take(6) =~= digits);
                assert(digits.take(5).len() == 5 && digits.take(4).len() == 4
                    && digits.take(3).len() == 3 && digits.take(2).len() == 2
                    && digits.take(1).len() == 1);
                if keep < 6 {
                    assert(f % 10 == 0);
                    assert(digits.last() == '0');
                }
                if keep < 5 {
                    assert(f % 100 == 0);
                    assert(f / 10 % 10 == 0) by (nonlinear_arith)
                        requires f % 100 == 0 && f >= 0;
                    assert(digits.take(5).last() == '0');
                }
                if keep < 4 {
                    assert(f % 1000 == 0);
                    assert(f / 100 % 10 == 0) by (nonlinear_arith)
                        requires f % 1000 == 0 && f >= 0;
                    assert(digits.take(4).last() == '0');
                }
                if keep < 3 {
                    assert(f % 10_000 == 0);
                    assert(f / 1000 % 10 == 0) by (nonlinear_arith)
                        requires f % 10_000 == 0 && f >= 0;
                    assert(digits.take(3).last() == '0');
                }
                if keep < 2 {
                    assert(f % 100_000 == 0);
                    assert(f / 10_000 % 10 == 0) by (nonlinear_arith)
                        requires f % 100_000 == 0 && f >= 0;
                    assert(digits.take(2).last() == '0');
                }
                if keep == 6 {
                    assert(digits.last() != '0');
                }
                if keep == 5 {
                    assert(f % 10 == 0 && f % 100 != 0);
                    assert(f / 10 % 10 != 0) by (nonlinear_arith)
                        requires f % 10 == 0 && f % 100 != 0 && f >= 0;
                    assert(digits.take(5).last() != '0');
                }
                if keep == 4 {
                    assert(f / 100 % 10 != 0) by (nonlinear_arith)
                        requires f % 100 == 0 && f % 1000 != 0 && f >= 0;
                    assert(digits.take(4).last() != '0');
                }
                if keep == 3 {
                    assert(f / 1000 % 10 != 0) by (nonlinear_arith)
                        requires f % 1000 == 0 && f % 10_000 != 0 && f >= 0;
                    assert(digits.take(3).last() != '0');
                }
                if keep == 2 {
                    assert(f / 10_000 % 10 != 0) by (nonlinear_arith)
                        requires f % 10_000 == 0 && f % 100_000 != 0 && f >= 0;
                    assert(digits.take(2).last() != '0');
                }
            }
        }
        if keep >= 1 {
            out.append(digit_str((f / 100_000) as u8));
        }
        if keep >= 2 {
            out.append(digit_str((f / 10_000 % 10) as u8));
        }
        if keep >= 3 {
            out.append(digit_str((f / 1000 % 10) as u8));
        }
        if keep >= 4 {
            out.append(digit_str((f / 100 % 10) as u8));
        }
        if keep >= 5 {
            out.append(digit_str((f / 10 % 10) as u8));
        }
        if keep >= 6 {
            out.append(digit_str((f % 10) as u8));
        }
        proof {
            reveal_strlit(".");
            assert(out@ =~= micro_str(q as int));
        }
    } else {
        proof {
            assert(out@ =~= micro_str(q as int));
        }
    }
    out
}

/// Append one field, quoted and escaped exactly when needed.
fn push_csv_field(out: &mut String, f: &str)
    ensures
        final(out)@ == old(out)@ + csv_field(f@),
{
    let flen = f.unicode_len();
    let mut needs = false;
    let mut i: usize = 0;
    while i < flen
        invariant
            i <= flen,
            flen == f@.len(),
            needs == exists|j: int| 0 <= j < i && (f@[j] == ',' || f@[j] == '"' || f@[
                j
            ] == '\n' || f@[j] == '\r'),
        decreases flen - i,
    {
        let c = f.get_char(i);
        if c == ',' || c == '"' || c == '\n' || c == '\r' {
            needs = true;
        }
        i += 1;
    }
    proof {
        assert(needs == needs_quote(f@));
    }
    if !needs {
        out.append(f);
    } else {
        out.append("\"");
        let ghost base = out@;
        proof {
            assert(f@.take(0) =~= Seq::<char>::empty());
            assert(out@ =~= base + escape_quotes(f@.take(0)));
        }
        let mut i: usize = 0;
        while i < flen
            invariant
                i <= flen,
                flen == f@.len(),
                out@ == base + escape_quotes(f@.take(i as int)),
            decreases flen - i,
        {
            proof {
                assert(f@.take(i + 1).drop_last() =~= f@.take(i as int));
                assert(f@.take(i + 1).last() == f@[i as int]);
            }
            let c = f.get_char(i);
            if c == '"' {
                out.append("\"\"");
                proof {
                    reveal_strlit("\"\"");
                    assert("\"\""@[0] == '"' && "\"\""@[1] == '"');
                    assert(out@ =~= base + escape_quotes(f@.take(i + 1)));
                }
            } else {
                let piece = f.substring_char(i, i + 1);
                out.append(piece);
                proof {
                    assert(piece@ =~= seq![f@[i as int]]);
                    assert(out@ =~= base + escape_quotes(f@.take(i + 1)));
                }
            }
            i += 1;
        }
        out.append("\"");
        proof {
            reveal_strlit("\"");
            assert(f@.take(f@.len() as int) =~= f@);
            assert(out@ =~= old(out)@ + csv_field(f@));
        }
    }
}

/// Append one record: fields joined by commas, ended by a line feed.
fn push_csv_row(out: &mut String, fields: &Vec<String>)
    ensures
        final(out)@ == old(out)@ + csv_row(fields@.map_values(string_view_fn())),
{
    let ghost base = out@;
    let ghost views = fields@.map_values(string_view_fn());
    proof {
        assert(views.take(0) =~= Seq::<Seq<char>>::empty());
    }
    let mut j: usize = 0;
    while j < fields.len()
        invariant
            j <= fields@.len(),
            views == fields@.map_values(string_view_fn()),
            out@ == base + csv_fields_joined(views.take(j as int)),
        decreases fields@.len() - j,
    {
        if j > 0 {
            out.append(",");
            proof {
                reveal_strlit(",");
            }
        }
        push_csv_field(out, fields[j].as_str());
        proof {
            assert(views.take(j + 1).drop_last() =~= views.take(j as int));
            assert(views.take(j + 1).last() == views[j as int]);
            assert(out@ =~= base + csv_fields_joined(views.take(j + 1)));
        }
        j += 1;
    }
    out.append("\n");
    proof {
        reveal_strlit("\n");
        assert(views.take(views.len() as int) =~= views);
        assert(out@ =~= old(out)@ + csv_row(views));
    }
}

impl BomEngine {
    /// Serialize a calculation to CSV text: the fixed header, then one row
    /// per consolidated item, each with the nine columns in order.  Export
    /// never fails; the calculation stays valid and re-exportable.
    #[verifier::rlimit(100)]
    pub fn export_csv(&self, bom: &BomCalculation) -> (r: Result<String, BomError>)
        ensures
            r matches Ok(s) && s@ == bom_csv(bom.items@.map_values(item_model_fn())),
    {
        let ghost models = bom.items@.map_values(item_model_fn());
        let mut out = String::new();
        out.append(
            "Material Code,Material Name,Quantity,Unit,Unit Cost,Total Cost,Discipline,Category,Notes\n",
        );
        let ghost header = out@;
        proof {
            assert(header =~= bom_csv(Seq::<BomItemModel>::empty()));
            assert(models.take(0) =~= Seq::<BomItemModel>::empty());
            assert(out@ =~= header + csv_rows(models.take(0)));
        }
        let mut i: usize = 0;
        while i < bom.items.len()
            invariant
                i <= bom.items@.len(),
                models == bom.items@.map_values(item_model_fn()),
                header == bom_csv(Seq::<BomItemModel>::empty()),
                out@ == header + csv_rows(models.take(i as int)),
            decreases bom.items@.len() - i,
        {
            let item = &bom.items[i];
            let mut fields: Vec<String> = Vec::new();
            fields.push(item.material_code.clone());
            fields.push(item.material_name.clone());
            fields.push(milli_to_string(item.quantity_milli));
            fields.push(item.unit.name());
            fields.push(milli_to_string(item.unit_cost_milli as u128));
            fields.push(micro_to_string(item.total_cost_micro));
            fields.push(item.discipline.name());
            fields.push(item.category.clone());
            match &item.notes {
                Some(n) => fields.push(n.clone()),
                None => fields.push(String::new()),
            }
            proof {
                assert(models[i as int] == item_model_fn()(bom.items@[i as int]));
                assert(fields@.map_values(string_view_fn()) =~= item_record(
                    models[i as int],
                ));
            }
            push_csv_row(&mut out, &fields);
            proof {
                assert(models.take(i + 1).drop_last() =~= models.take(i as int));
                assert(models.take(i + 1).last() == models[i as int]);
                assert(out@ =~= header + csv_rows(models.take(i + 1)));
            }
            i += 1;
        }
        proof {
            assert(models.take(models.len() as int) =~= models);
            assert(csv_rows(Seq::<BomItemModel>::empty()) =~= Seq::<char>::empty());
            assert(out@ =~= bom_csv(models));
        }
        Ok(out)
    }
}

} // verus!

//! The text of a C header that declares every function of the table, in name order.
use vstd::prelude::*;

use crate::function_table::FunctionTable;
use crate::parse::{FunctionDataView, PrimitiveDataType, Variable, VariableView};

verus! {

/// The C type that stands for a primitive type.
pub open spec fn c_type_name(t: PrimitiveDataType) -> Seq<char> {
    match t {
        PrimitiveDataType::Void => "void"@,
        PrimitiveDataType::Bool => "bool"@,
        PrimitiveDataType::Int => "int"@,
        PrimitiveDataType::Float => "float"@,
        PrimitiveDataType::Str => "char"@,
    }
}

/// One parameter: `type name`.
pub open spec fn parameter_text(a: VariableView) -> Seq<char> {
    c_type_name(a.data_type) + " "@ + a.name
}

/// The parameters, separated by `, `.
pub open spec fn parameters_text(args: Seq<VariableView>) -> Seq<char>
    decreases args.len(),
{
    if args.len() == 0 {
        Seq::empty()
    } else if args.len() == 1 {
        parameter_text(args[0])
    } else {
        parameters_text(args.drop_last()) + ", "@ + parameter_text(args.last())
    }
}

/// One declaration, `ret name(type a, type b);`, and a blank line.
pub open spec fn declaration_text(name: Seq<char>, d: FunctionDataView) -> Seq<char> {
    c_type_name(d.return_type) + " "@ + name + "("@ + parameters_text(d.args) + ");"@ + "\n\n"@
}

/// The header: the include line, then each function's declaration in the order of `names`.
pub open spec fn header_text(names: Seq<Seq<char>>, table: Map<Seq<char>, FunctionDataView>) -> Seq<
    char,
>
    decreases names.len(),
{
    if names.len() == 0 {
        "#include <stdbool.h>\n\n"@
    } else {
        header_text(names.drop_last(), table) + declaration_text(
            names.last(),
            table[names.last()],
        )
    }
}

fn append_parameters(out: &mut String, args: &Vec<Variable>)
    ensures
        final(out)@ == old(out)@ + parameters_text(crate::parse::variable_views(args@)),
{
    let ghost start = out@;
    let ghost views = crate::parse::variable_views(args@);
    let mut i: usize = 0;
    assert(views.take(0) =~= Seq::<VariableView>::empty());
    assert(start + Seq::<char>::empty() =~= start);
    while i < args.len()
        invariant
            i <= args@.len(),
            views == crate::parse::variable_views(args@),
            out@ == start + parameters_text(views.take(i as int)),
        decreases args@.len() - i,
    {
        let ghost before = out@;
        if i > 0 {
            out.append(", ");
        }
        out.append(args[i].data_type.to_str());
        out.append(" ");
        out.append(args[i].name.as_str());
        proof {
            assert(views.take(i + 1).drop_last() =~= views.take(i as int));
            assert(views[i as int] == args@[i as int]@);
            if i == 0 {
                assert(views.take(1).len() == 1);
                assert(start + Seq::<char>::empty() =~= start);
                assert(out@ =~= start + parameter_text(views[0]));
            } else {
                assert(out@ =~= before + ", "@ + parameter_text(views[i as int]));
            }
        }
        i = i + 1;
    }
    assert(views.take(i as int) =~= views);
}

/// The text of a C header declaring every function of the table, in name order.
pub fn c_header(table: &FunctionTable) -> (r: String)
    requires
        table.wf(),
    ensures
        r@ == header_text(table.keys(), table@),
{
    proof {
        table.lemma_keys();
    }
    let mut out = String::from_str("#include <stdbool.h>\n\n");
    let n = table.len();
    let mut i: usize = 0;
    assert(table.keys().take(0) =~= Seq::<Seq<char>>::empty());
    while i < n
        invariant
            table.wf(),
            n == table@.len(),
            n == table.keys().len(),
            i <= n,
            out@ == header_text(table.keys().take(i as int), table@),
        decreases n - i,
    {
        let ghost before = out@;
        let name = table.key_at(i);
        let data = table.value_at(i);
        out.append(data.return_type.to_str());
        out.append(" ");
        out.append(name.as_str());
        out.append("(");
        append_parameters(&mut out, &data.args);
        out.append(");");
        out.append("\n\n");
        proof {
            assert(table.keys().take(i + 1).drop_last() =~= table.keys().take(i as int));
            assert(out@ =~= before + declaration_text(table.keys()[i as int], data@));
        }
        i = i + 1;
    }
    assert(table.keys().take(n as int) =~= table.keys());
    out
}

} // verus!

use vstd::prelude::*;
use vstd::string::StringExecFns;
use crate::wpp::item::{attribute_views, string_views, WppItem};

verus! {

/// The values of an attribute, each in quotes, joined by ` + `.
pub open spec fn quoted_values(vs: Seq<Seq<char>>) -> Seq<char>
    decreases vs.len(),
{
    if vs.len() == 0 {
        Seq::empty()
    } else if vs.len() == 1 {
        "\""@ + vs[0] + "\""@
    } else {
        quoted_values(vs.drop_last()) + " + \""@ + vs.last() + "\""@
    }
}

/// The line of an attribute: `    Name("v1" + "v2")`.
pub open spec fn attribute_line(a: (Seq<char>, Seq<Seq<char>>)) -> Seq<char> {
    "    "@ + a.0 + "("@ + quoted_values(a.1) + ")\n"@
}

/// The lines of the attributes, in order.
pub open spec fn attribute_lines(attrs: Seq<(Seq<char>, Seq<Seq<char>>)>) -> Seq<char>
    decreases attrs.len(),
{
    if attrs.len() == 0 {
        Seq::empty()
    } else {
        attribute_lines(attrs.drop_last()) + attribute_line(attrs.last())
    }
}

/// An entry in W++: `[Type("Name")`, then the attribute lines between braces, then `]`.
pub open spec fn formatted(item: (Seq<char>, Seq<char>, Seq<(Seq<char>, Seq<Seq<char>>)>)) -> Seq<char> {
    "["@ + item.0 + "(\""@ + item.1 + "\")"@ + "\n{\n"@ + attribute_lines(item.2) + "}]"@
}

/// Writes an entry out in W++.
pub fn format(item: &WppItem) -> (r: String)
    ensures
        r@ == formatted(item@),
{
    let mut out = String::from_str("[");
    out.append(item.item_type());
    out.append("(\"");
    out.append(item.name());
    out.append("\")");
    out.append("\n{\n");
    let attributes = item.attributes();
    let ghost attrs = attribute_views(attributes@);
    let ghost head = out@;
    let mut i: usize = 0;
    while i < attributes.len()
        invariant
            0 <= i <= attributes@.len(),
            attrs == attribute_views(attributes@),
            out@ == head + attribute_lines(attrs.take(i as int)),
        decreases attributes@.len() - i,
    {
        let attribute = &attributes[i];
        out.append("    ");
        out.append(attribute.name());
        out.append("(");
        let values = attribute.values();
        let ghost vs = string_views(values@);
        let ghost line_head = out@;
        let mut k: usize = 0;
        while k < values.len()
            invariant
                0 <= k <= values@.len(),
                vs == string_views(values@),
                out@ == line_head + quoted_values(vs.take(k as int)),
            decreases values@.len() - k,
        {
            if k > 0 {
                out.append(" + ");
            }
            out.append("\"");
            out.append(values[k].as_str());
            out.append("\"");
            proof {
                let t = vs.take(k + 1);
                assert(t.drop_last() =~= vs.take(k as int));
                if k == 0 {
                    reveal_strlit("\"");
                    reveal_strlit(" + \"");
                    assert(quoted_values(vs.take(0)) =~= Seq::<char>::empty());
                } else {
                    reveal_strlit("\"");
                    reveal_strlit(" + ");
                    reveal_strlit(" + \"");
                    assert(" + "@ + "\""@ =~= " + \""@);
                }
                assert(out@ =~= line_head + quoted_values(t));
            }
            k = k + 1;
        }
        out.append(")\n");
        proof {
            assert(vs.take(values@.len() as int) =~= vs);
            let t = attrs.take(i + 1);
            assert(t.drop_last() =~= attrs.take(i as int));
            assert(out@ =~= head + attribute_lines(t));
        }
        i = i + 1;
    }
    out.append("}]");
    proof {
        assert(attrs.take(attributes@.len() as int) =~= attrs);
    }
    out
}

} // verus!

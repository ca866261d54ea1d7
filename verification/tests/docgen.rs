use python_autodoc::{find_definition_above, generate_docstring};

fn lines(s: &str) -> Vec<&str> {
    s.lines().collect()
}

#[test]
fn test_simple_function() {
    let src = "def greet(name: str, times: int = 1) -> str:\n    \"\"\"";
    let ls = lines(src);
    let cursor_line = ls.len() - 1; // Position of the """ line
    let def = find_definition_above(&ls, cursor_line).unwrap();
    let doc = generate_docstring(&def, &ls, cursor_line).unwrap();
    assert!(doc.contains("name (str)"));
    assert!(doc.contains("times (int)"));
    assert!(doc.contains("Returns:"));
    assert!(doc.contains("str"));
}

#[test]
fn test_no_params_no_return_is_oneliner() {
    let src = "def outer():\n    \"\"\"";
    let ls = lines(src);
    let cursor_line = ls.len() - 1;
    let def = find_definition_above(&ls, cursor_line).unwrap();
    let doc = generate_docstring(&def, &ls, cursor_line).unwrap();
    // No args, no return, no raises → one-liner (no leading newline)
    assert!(!doc.starts_with('\n'));
    assert!(doc.contains("${1:Summary.}"));
    assert!(!doc.contains("Args:"));
    assert!(!doc.contains("Returns:"));
}

#[test]
fn test_no_annotations() {
    let src = "def add(a, b):\n    \"\"\"";
    let ls = lines(src);
    let cursor_line = ls.len() - 1;
    let def = find_definition_above(&ls, cursor_line).unwrap();
    let doc = generate_docstring(&def, &ls, cursor_line).unwrap();
    assert!(doc.contains("a (${"));
    assert!(doc.contains("b (${"));
}

#[test]
fn test_skips_self() {
    let src = "def save(self, path: str) -> None:\n    \"\"\"";
    let ls = lines(src);
    let cursor_line = ls.len() - 1;
    let def = find_definition_above(&ls, cursor_line).unwrap();
    let doc = generate_docstring(&def, &ls, cursor_line).unwrap();
    assert!(!doc.contains("self"));
    assert!(doc.contains("path (str)"));
}

#[test]
fn test_none_return_omitted() {
    let src = "def reset(self) -> None:\n    \"\"\"";
    let ls = lines(src);
    let cursor_line = ls.len() - 1;
    let def = find_definition_above(&ls, cursor_line).unwrap();
    let doc = generate_docstring(&def, &ls, cursor_line).unwrap();
    assert!(!doc.contains("Returns:"));
}

#[test]
fn test_class() {
    let src = "class MyModel:\n    \"\"\"";
    let ls = lines(src);
    let cursor_line = ls.len() - 1;
    let def = find_definition_above(&ls, cursor_line).unwrap();
    let doc = generate_docstring(&def, &ls, cursor_line).unwrap();
    assert!(doc.contains("${1")); // has summary placeholder
}

#[test]
fn test_multiline_signature() {
    let src = "def foo(\n    a: int,\n    b: str,\n) -> bool:\n    \"\"\"";
    let ls = lines(src);
    let cursor_line = ls.len() - 1;
    let def = find_definition_above(&ls, cursor_line).unwrap();
    let doc = generate_docstring(&def, &ls, cursor_line).unwrap();
    assert!(doc.contains("a (int)"));
    assert!(doc.contains("b (str)"));
    assert!(doc.contains("Returns:"));
}

#[test]
fn test_class_with_init_args() {
    // Per PEP 257, class docstrings should not include __init__ args
    let src = "class Point:\n    def __init__(self, x: float, y: float):\n        pass";
    let ls = lines(src);
    let doc = generate_docstring(src, &ls, 0).unwrap();
    assert!(doc.contains("${1")); // has summary placeholder
    assert!(!doc.contains("x (")); // should NOT contain __init__ args
    assert!(!doc.contains("Args:"));
}

#[test]
fn test_init_method_docstring() {
    // __init__ should be documented like any other method
    let src = "def __init__(self, x: float, y: float):\n    \"\"\"";
    let ls = lines(src);
    let cursor_line = ls.len() - 1;
    let def = find_definition_above(&ls, cursor_line).unwrap();
    let doc = generate_docstring(&def, &ls, cursor_line).unwrap();
    assert!(doc.contains("x (float)"));
    assert!(doc.contains("y (float)"));
    assert!(!doc.contains("self")); // self should be skipped
    assert!(doc.contains("Args:"));
}

// -- Complex Type Annotation Tests --

#[test]
fn test_union_type_old_syntax() {
    let src = "def process_value(value: Union[str, int], default: Union[str, int] = 0) -> Union[str, int]:\n    \"\"\"";
    let ls = lines(src);
    let cursor_line = ls.len() - 1;
    let def = find_definition_above(&ls, cursor_line).unwrap();
    let doc = generate_docstring(&def, &ls, cursor_line).unwrap();
    assert!(doc.contains("value (Union[str, int])"));
    assert!(doc.contains("default (Union[str, int])"));
    assert!(doc.contains("Returns:"));
    assert!(doc.contains("Union[str, int]"));
}

#[test]
fn test_union_type_pipe_syntax() {
    let src =
        "def process_value(value: str | int, default: str | int = 0) -> str | int:\n    \"\"\"";
    let ls = lines(src);
    let cursor_line = ls.len() - 1;
    let def = find_definition_above(&ls, cursor_line).unwrap();
    let doc = generate_docstring(&def, &ls, cursor_line).unwrap();
    assert!(doc.contains("value (str | int)"));
    assert!(doc.contains("default (str | int)"));
    assert!(doc.contains("Returns:"));
    assert!(doc.contains("str | int"));
}

#[test]
fn test_optional_type() {
    let src = "def find_user(user_id: int, cache: Optional[dict] = None) -> Optional[str]:\n    \"\"\"";
    let ls = lines(src);
    let cursor_line = ls.len() - 1;
    let def = find_definition_above(&ls, cursor_line).unwrap();
    let doc = generate_docstring(&def, &ls, cursor_line).unwrap();
    assert!(doc.contains("user_id (int)"));
    assert!(doc.contains("cache (Optional[dict])"));
    assert!(doc.contains("Returns:"));
    assert!(doc.contains("Optional[str]"));
}

#[test]
fn test_callable_type() {
    let src = "def register_callback(\n    callback: Callable[[int, str], bool],\n    fallback: Callable[[str], None] = None,\n) -> None:\n    \"\"\"";
    let ls = lines(src);
    let cursor_line = ls.len() - 1;
    let def = find_definition_above(&ls, cursor_line).unwrap();
    let doc = generate_docstring(&def, &ls, cursor_line).unwrap();
    assert!(doc.contains("callback (Callable[[int, str], bool])"));
    assert!(doc.contains("fallback (Callable[[str], None])"));
    assert!(!doc.contains("Returns:")); // None return should be omitted
}

#[test]
fn test_nested_generic_types() {
    let src = "def merge_data(\n    data: list[dict[str, Any]],\n    overrides: dict[str, list[int]] = None,\n) -> list[dict[str, Any]]:\n    \"\"\"";
    let ls = lines(src);
    let cursor_line = ls.len() - 1;
    let def = find_definition_above(&ls, cursor_line).unwrap();
    let doc = generate_docstring(&def, &ls, cursor_line).unwrap();
    assert!(doc.contains("data (list[dict[str, Any]])"));
    assert!(doc.contains("overrides (dict[str, list[int]])"));
    assert!(doc.contains("Returns:"));
    assert!(doc.contains("list[dict[str, Any]]"));
}

#[test]
fn test_generic_typevar() {
    let src = "def get_first(items: List[T], default: T = None) -> T:\n    \"\"\"";
    let ls = lines(src);
    let cursor_line = ls.len() - 1;
    let def = find_definition_above(&ls, cursor_line).unwrap();
    let doc = generate_docstring(&def, &ls, cursor_line).unwrap();
    assert!(doc.contains("items (List[T])"));
    assert!(doc.contains("default (T)"));
    assert!(doc.contains("Returns:"));
    assert!(doc.contains("T:"));
}

#[test]
fn test_very_long_type_annotation() {
    let src = "def complex_processor(\n    data: dict[str, Union[int, str, list[dict[str, Any]]]],\n    validators: list[Callable[[dict[str, Any]], bool]],\n) -> tuple[dict[str, Any], list[str]]:\n    \"\"\"";
    let ls = lines(src);
    let cursor_line = ls.len() - 1;
    let def = find_definition_above(&ls, cursor_line).unwrap();
    let doc = generate_docstring(&def, &ls, cursor_line).unwrap();
    // Verify the long types are preserved as-is
    assert!(doc.contains("data (dict[str, Union[int, str, list[dict[str, Any]]]])"));
    assert!(doc.contains("validators (list[Callable[[dict[str, Any]], bool]])"));
    assert!(doc.contains("Returns:"));
    assert!(doc.contains("tuple[dict[str, Any], list[str]]"));
}

#[test]
fn test_multiple_type_parameters() {
    let src = "def transform_dict(data: Dict[K, V], transformer: Callable[[V], V]) -> Dict[K, V]:\n    \"\"\"";
    let ls = lines(src);
    let cursor_line = ls.len() - 1;
    let def = find_definition_above(&ls, cursor_line).unwrap();
    let doc = generate_docstring(&def, &ls, cursor_line).unwrap();
    assert!(doc.contains("data (Dict[K, V])"));
    assert!(doc.contains("transformer (Callable[[V], V])"));
    assert!(doc.contains("Returns:"));
    assert!(doc.contains("Dict[K, V]"));
}

#[test]
fn test_literal_type() {
    let src = r#"def set_mode(mode: Literal["read", "write", "append"]) -> None:
""""#;
    let ls = lines(src);
    let cursor_line = ls.len() - 1;
    let def = find_definition_above(&ls, cursor_line).unwrap();
    let doc = generate_docstring(&def, &ls, cursor_line).unwrap();
    assert!(doc.contains(r#"mode (Literal["read", "write", "append"])"#));
    assert!(!doc.contains("Returns:")); // None return should be omitted
}

#[test]
fn test_nested_callable() {
    let src = "def higher_order_function(\n    func: Callable[[Callable[[int], str]], list[str]],\n) -> Callable[[int], str]:\n    \"\"\"";
    let ls = lines(src);
    let cursor_line = ls.len() - 1;
    let def = find_definition_above(&ls, cursor_line).unwrap();
    let doc = generate_docstring(&def, &ls, cursor_line).unwrap();
    assert!(doc.contains("func (Callable[[Callable[[int], str]], list[str]])"));
    assert!(doc.contains("Returns:"));
    assert!(doc.contains("Callable[[int], str]"));
}

#[test]
fn test_union_with_many_types() {
    let src = "def multi_type_handler(\n    value: Union[str, int, float, bool, list, dict, None],\n) -> Union[str, int, float, bool, list, dict, None]:\n    \"\"\"";
    let ls = lines(src);
    let cursor_line = ls.len() - 1;
    let def = find_definition_above(&ls, cursor_line).unwrap();
    let doc = generate_docstring(&def, &ls, cursor_line).unwrap();
    assert!(doc.contains("value (Union[str, int, float, bool, list, dict, None])"));
    assert!(doc.contains("Returns:"));
    assert!(doc.contains("Union[str, int, float, bool, list, dict, None]"));
}

#[test]
fn test_complex_nested_optional_union() {
    let src = "def parse_config(\n    config: Optional[Union[str, dict[str, Union[str, int, list[str]]]]] = None,\n) -> dict[str, Any]:\n    \"\"\"";
    let ls = lines(src);
    let cursor_line = ls.len() - 1;
    let def = find_definition_above(&ls, cursor_line).unwrap();
    let doc = generate_docstring(&def, &ls, cursor_line).unwrap();
    assert!(
        doc.contains("config (Optional[Union[str, dict[str, Union[str, int, list[str]]]]])")
    );
    assert!(doc.contains("Returns:"));
    assert!(doc.contains("dict[str, Any]"));
}

// -- Nested Function Tests --

#[test]
fn test_nested_function_basic() {
    let src = "def outer():\n    def inner(x: int) -> str:\n        \"\"\"";
    let ls = lines(src);
    let cursor_line = ls.len() - 1;
    let def = find_definition_above(&ls, cursor_line).unwrap();
    let doc = generate_docstring(&def, &ls, cursor_line).unwrap();
    assert!(doc.contains("x (int)"));
    assert!(doc.contains("Returns:"));
    assert!(doc.contains("str"));
}

#[test]
fn test_nested_function_with_outer_params() {
    let src = "def outer(a: str, b: int):\n    def inner(x: float, y: bool = True) -> list:\n        \"\"\"";
    let ls = lines(src);
    let cursor_line = ls.len() - 1;
    let def = find_definition_above(&ls, cursor_line).unwrap();
    let doc = generate_docstring(&def, &ls, cursor_line).unwrap();
    // Should document the inner function, not the outer
    assert!(doc.contains("x (float)"));
    assert!(doc.contains("y (bool)"));
    assert!(!doc.contains("a (")); // outer params should not appear
    assert!(!doc.contains("b ("));
    assert!(doc.contains("Returns:"));
    assert!(doc.contains("list"));
}

#[test]
fn test_deeply_nested_function() {
    let src = "def level1():\n    def level2():\n        def level3(z: dict) -> None:\n            \"\"\"";
    let ls = lines(src);
    let cursor_line = ls.len() - 1;
    let def = find_definition_above(&ls, cursor_line).unwrap();
    let doc = generate_docstring(&def, &ls, cursor_line).unwrap();
    assert!(doc.contains("z (dict)"));
    assert!(!doc.contains("Returns:")); // None should be omitted
}

#[test]
fn test_nested_function_multiline() {
    let src = "def outer():\n    def inner(\n        x: int,\n        y: str,\n    ) -> bool:\n        \"\"\"";
    let ls = lines(src);
    let cursor_line = ls.len() - 1;
    let def = find_definition_above(&ls, cursor_line).unwrap();
    let doc = generate_docstring(&def, &ls, cursor_line).unwrap();
    assert!(doc.contains("x (int)"));
    assert!(doc.contains("y (str)"));
    assert!(doc.contains("Returns:"));
    assert!(doc.contains("bool"));
}

#[test]
fn test_nested_async_function() {
    let src = "def outer():\n    async def inner(url: str) -> dict:\n        \"\"\"";
    let ls = lines(src);
    let cursor_line = ls.len() - 1;
    let def = find_definition_above(&ls, cursor_line).unwrap();
    let doc = generate_docstring(&def, &ls, cursor_line).unwrap();
    assert!(doc.contains("url (str)"));
    assert!(doc.contains("Returns:"));
    assert!(doc.contains("dict"));
}

#[test]
fn test_nested_function_complex_types() {
    let src = "def outer():\n    def inner(data: list[dict[str, Any]]) -> Optional[str]:\n        \"\"\"";
    let ls = lines(src);
    let cursor_line = ls.len() - 1;
    let def = find_definition_above(&ls, cursor_line).unwrap();
    let doc = generate_docstring(&def, &ls, cursor_line).unwrap();
    assert!(doc.contains("data (list[dict[str, Any]])"));
    assert!(doc.contains("Returns:"));
    assert!(doc.contains("Optional[str]"));
}

// -- Raises Section Tests --

#[test]
fn test_function_with_raise() {
    let src = "def divide(a: int, b: int) -> float:\n    \"\"\"\n    if b == 0:\n        raise ZeroDivisionError(\"Cannot divide by zero\")";
    let ls = lines(src);
    let cursor_line = 1; // Position of the """ line
    let def = find_definition_above(&ls, cursor_line).unwrap();
    let doc = generate_docstring(&def, &ls, cursor_line).unwrap();
    assert!(doc.contains("a (int)"));
    assert!(doc.contains("b (int)"));
    assert!(doc.contains("Returns:"));
    assert!(doc.contains("float"));
    assert!(doc.contains("Raises:"));
    assert!(doc.contains("ZeroDivisionError"));
}

#[test]
fn test_function_without_raise() {
    let src = "def add(a: int, b: int) -> int:\n    \"\"\"\n    return a + b";
    let ls = lines(src);
    let cursor_line = 1;
    let def = find_definition_above(&ls, cursor_line).unwrap();
    let doc = generate_docstring(&def, &ls, cursor_line).unwrap();
    assert!(doc.contains("a (int)"));
    assert!(doc.contains("b (int)"));
    assert!(doc.contains("Returns:"));
    assert!(!doc.contains("Raises:")); // Should NOT have Raises section
}

#[test]
fn test_function_with_multiple_raises() {
    let src = "def process(data: str) -> dict:\n    \"\"\"\n    if not data:\n        raise ValueError(\"Empty data\")\n    if len(data) > 100:\n        raise RuntimeError(\"Too large\")";
    let ls = lines(src);
    let cursor_line = 1;
    let def = find_definition_above(&ls, cursor_line).unwrap();
    let doc = generate_docstring(&def, &ls, cursor_line).unwrap();
    assert!(doc.contains("data (str)"));
    assert!(doc.contains("Returns:"));
    assert!(doc.contains("Raises:"));
    assert!(doc.contains("ValueError"));
    assert!(doc.contains("RuntimeError"));
}

#[test]
fn test_raises_with_no_return() {
    let src = "def validate(value: int) -> None:\n    \"\"\"\n    if value < 0:\n        raise ValueError(\"Must be positive\")";
    let ls = lines(src);
    let cursor_line = 1;
    let def = find_definition_above(&ls, cursor_line).unwrap();
    let doc = generate_docstring(&def, &ls, cursor_line).unwrap();
    assert!(doc.contains("value (int)"));
    assert!(!doc.contains("Returns:")); // None return omitted
    assert!(doc.contains("Raises:"));
    assert!(doc.contains("ValueError"));
}

#[test]
fn test_nested_function_with_raise() {
    let src = "def outer():\n    def inner(x: int) -> str:\n        \"\"\"\n        if x < 0:\n            raise ValueError(\"Negative\")";
    let ls = lines(src);
    let cursor_line = 2;
    let def = find_definition_above(&ls, cursor_line).unwrap();
    let doc = generate_docstring(&def, &ls, cursor_line).unwrap();
    assert!(doc.contains("x (int)"));
    assert!(doc.contains("Raises:"));
    assert!(doc.contains("ValueError"));
}

#[test]
fn test_raise_in_string_not_detected() {
    // The word "raise" in a string should NOT trigger Raises section
    let src = "def message() -> str:\n    \"\"\"\n    return \"raise the flag\"";
    let ls = lines(src);
    let cursor_line = 1;
    let def = find_definition_above(&ls, cursor_line).unwrap();
    let doc = generate_docstring(&def, &ls, cursor_line).unwrap();
    assert!(!doc.contains("Raises:")); // Should NOT have Raises section
}

#[test]
fn test_raise_in_comment_not_detected() {
    // The word "raise" in a comment should NOT trigger Raises section
    let src =
        "def process() -> None:\n    \"\"\"\n    # TODO: raise an exception later\n    pass";
    let ls = lines(src);
    let cursor_line = 1;
    let def = find_definition_above(&ls, cursor_line).unwrap();
    let doc = generate_docstring(&def, &ls, cursor_line).unwrap();
    assert!(!doc.contains("Raises:")); // Should NOT have Raises section
}

#[test]
fn test_bare_reraise_uses_except_type() {
    let src = "def wrapper(value: int) -> int:\n    \"\"\"\n    try:\n        return int(value)\n    except ValueError:\n        raise";
    let ls = lines(src);
    let cursor_line = 1;
    let def = find_definition_above(&ls, cursor_line).unwrap();
    let doc = generate_docstring(&def, &ls, cursor_line).unwrap();
    assert!(doc.contains("Raises:"));
    assert!(doc.contains("ValueError"));
}

#[test]
fn test_raise_in_nested_function_not_attributed_to_outer() {
    // The outer function does not raise; the raise is inside a nested function.
    let src = "def outer(threshold: int):\n    \"\"\"\n    def inner(item: int) -> bool:\n        if item < threshold:\n            raise ValueError(\"below threshold\")\n        return True\n    return inner";
    let ls = lines(src);
    let cursor_line = 1;
    let def = find_definition_above(&ls, cursor_line).unwrap();
    let doc = generate_docstring(&def, &ls, cursor_line).unwrap();
    assert!(!doc.contains("Raises:"));
    assert!(!doc.contains("ValueError"));
}

#[test]
fn test_raise_in_try_except() {
    // Actual raise statement in try/except block should be detected
    let src = "def handle() -> None:\n    \"\"\"\n    try:\n        pass\n    except Exception:\n        raise RuntimeError(\"Failed\")";
    let ls = lines(src);
    let cursor_line = 1;
    let def = find_definition_above(&ls, cursor_line).unwrap();
    let doc = generate_docstring(&def, &ls, cursor_line).unwrap();
    assert!(doc.contains("Raises:"));
    assert!(doc.contains("RuntimeError"));
}

// -- Dataclass Tests --

#[test]
fn test_basic_dataclass() {
    let src = "@dataclass\nclass Point:\n    \"\"\"";
    let ls = lines(src);
    let cursor_line = 2;
    let def = find_definition_above(&ls, cursor_line).unwrap();
    let doc = generate_docstring(&def, &ls, cursor_line).unwrap();
    assert!(doc.contains("${1:Summary.}"));
    // No fields defined yet, so no Attributes section
}

#[test]
fn test_dataclass_with_fields() {
    let src = "@dataclass\nclass Point:\n    \"\"\"\n    x: float\n    y: float";
    let ls = lines(src);
    let cursor_line = 2;
    let def = find_definition_above(&ls, cursor_line).unwrap();
    let doc = generate_docstring(&def, &ls, cursor_line).unwrap();
    assert!(doc.contains("Attributes:"));
    assert!(doc.contains("x (float)"));
    assert!(doc.contains("y (float)"));
}

#[test]
fn test_dataclass_with_defaults() {
    let src = "@dataclass\nclass Person:\n    \"\"\"\n    name: str\n    age: int = 0";
    let ls = lines(src);
    let cursor_line = 2;
    let def = find_definition_above(&ls, cursor_line).unwrap();
    let doc = generate_docstring(&def, &ls, cursor_line).unwrap();
    assert!(doc.contains("Attributes:"));
    assert!(doc.contains("name (str)"));
    assert!(doc.contains("age (int)"));
    assert!(doc.contains("default: 0"));
}

#[test]
fn test_dataclass_with_optional() {
    let src =
        "@dataclass\nclass User:\n    \"\"\"\n    name: str\n    email: Optional[str] = None";
    let ls = lines(src);
    let cursor_line = 2;
    let def = find_definition_above(&ls, cursor_line).unwrap();
    let doc = generate_docstring(&def, &ls, cursor_line).unwrap();
    assert!(doc.contains("Attributes:"));
    assert!(doc.contains("name (str)"));
    assert!(doc.contains("email (Optional[str])"));
    assert!(doc.contains("default: None"));
}

#[test]
fn test_dataclass_skips_classvar() {
    let src =
        "@dataclass\nclass Counter:\n    \"\"\"\n    count: int\n    total: ClassVar[int] = 0";
    let ls = lines(src);
    let cursor_line = 2;
    let def = find_definition_above(&ls, cursor_line).unwrap();
    let doc = generate_docstring(&def, &ls, cursor_line).unwrap();
    assert!(doc.contains("Attributes:"));
    assert!(doc.contains("count (int)"));
    assert!(!doc.contains("total")); // ClassVar should be skipped
}

#[test]
fn test_dataclass_skips_initvar() {
    let src =
        "@dataclass\nclass Item:\n    \"\"\"\n    value: int\n    init_param: InitVar[str]";
    let ls = lines(src);
    let cursor_line = 2;
    let def = find_definition_above(&ls, cursor_line).unwrap();
    let doc = generate_docstring(&def, &ls, cursor_line).unwrap();
    assert!(doc.contains("Attributes:"));
    assert!(doc.contains("value (int)"));
    assert!(!doc.contains("init_param")); // InitVar should be skipped
}

#[test]
fn test_dataclass_complex_types() {
    let src = "@dataclass\nclass Config:\n    \"\"\"\n    data: list[dict[str, Any]]\n    callback: Optional[Callable[[int], str]] = None";
    let ls = lines(src);
    let cursor_line = 2;
    let def = find_definition_above(&ls, cursor_line).unwrap();
    let doc = generate_docstring(&def, &ls, cursor_line).unwrap();
    assert!(doc.contains("Attributes:"));
    assert!(doc.contains("data (list[dict[str, Any]])"));
    assert!(doc.contains("callback (Optional[Callable[[int], str]])"));
}

#[test]
fn test_regular_class_not_dataclass() {
    // Regular class without @dataclass should not get Attributes section
    let src = "class Point:\n    \"\"\"";
    let ls = lines(src);
    let cursor_line = 1;
    let def = find_definition_above(&ls, cursor_line).unwrap();
    let doc = generate_docstring(&def, &ls, cursor_line).unwrap();
    assert!(!doc.contains("Attributes:")); // Should NOT have Attributes
    assert!(doc.contains("${1:Summary.}")); // Just summary
}

#[test]
fn test_dataclasses_module_decorator() {
    // Test @dataclasses.dataclass form
    let src = "@dataclasses.dataclass\nclass Point:\n    \"\"\"\n    x: float\n    y: float";
    let ls = lines(src);
    let cursor_line = 2;
    let def = find_definition_above(&ls, cursor_line).unwrap();
    let doc = generate_docstring(&def, &ls, cursor_line).unwrap();
    assert!(doc.contains("Attributes:"));
    assert!(doc.contains("x (float)"));
}

#[test]
fn test_dataclass_annotated_field_with_default() {
    // Annotated[..., Field(ge=0)] contains `=` inside brackets — must not be
    // mistaken for the type/default separator.
    let src =
        "@dataclass\nclass Validated:\n    \"\"\"\n    score: Annotated[int, Field(ge=0)] = 0";
    let ls = lines(src);
    let cursor_line = 2;
    let def = find_definition_above(&ls, cursor_line).unwrap();
    let doc = generate_docstring(&def, &ls, cursor_line).unwrap();
    assert!(doc.contains("Attributes:"));
    assert!(doc.contains("score (Annotated[int, Field(ge=0)])"));
    assert!(doc.contains("default: 0"));
}

#[test]
fn test_args_kwargs() {
    let src = "def process(*args, **kwargs):\n    \"\"\"";
    let ls = lines(src);
    let cursor_line = ls.len() - 1;
    let def = find_definition_above(&ls, cursor_line).unwrap();
    let doc = generate_docstring(&def, &ls, cursor_line).unwrap();
    assert!(doc.contains("*args"));
    assert!(doc.contains("**kwargs"));
    assert!(doc.contains("Args:"));
}

#[test]
fn test_skips_cls() {
    let src = "def create(cls, name: str) -> \"MyClass\":\n    \"\"\"";
    let ls = lines(src);
    let cursor_line = ls.len() - 1;
    let def = find_definition_above(&ls, cursor_line).unwrap();
    let doc = generate_docstring(&def, &ls, cursor_line).unwrap();
    assert!(!doc.contains("cls"));
    assert!(doc.contains("name (str)"));
}

#[test]
fn test_top_level_async_def() {
    let src = "async def fetch(url: str, timeout: int = 30) -> dict:\n    \"\"\"";
    let ls = lines(src);
    let cursor_line = ls.len() - 1;
    let def = find_definition_above(&ls, cursor_line).unwrap();
    let doc = generate_docstring(&def, &ls, cursor_line).unwrap();
    assert!(doc.contains("url (str)"));
    assert!(doc.contains("timeout (int)"));
    assert!(doc.contains("Returns:"));
    assert!(doc.contains("dict"));
}

#[test]
fn test_keyword_only_params() {
    let src = "def configure(host: str, *, port: int = 8080, debug: bool = False) -> None:\n    \"\"\"";
    let ls = lines(src);
    let cursor_line = ls.len() - 1;
    let def = find_definition_above(&ls, cursor_line).unwrap();
    let doc = generate_docstring(&def, &ls, cursor_line).unwrap();
    assert!(doc.contains("host (str)"));
    assert!(doc.contains("port (int)"));
    assert!(doc.contains("debug (bool)"));
    assert!(!doc.contains("Returns:")); // None return omitted
}

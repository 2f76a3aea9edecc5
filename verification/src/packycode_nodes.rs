//! The fixed catalogue of relay service nodes.

use vstd::prelude::*;

verus! {

/// What role a node plays.
#[derive(Debug, Clone, Copy, PartialEq, Eq, Structural)]
pub enum NodeType {
    /// A direct node.
    Direct,
    /// A fallback node.
    Backup,
    /// An emergency-only node.
    Emergency,
}

/// One service node of the catalogue.
#[derive(Debug)]
pub struct PackycodeNode {
    pub name: String,
    pub url: String,
    pub node_type: NodeType,
    pub description: String,
    /// Response time in milliseconds, once measured.
    pub response_time: Option<u64>,
    /// Whether the node answered, once tested.
    pub available: Option<bool>,
}

/// The full node catalogue: ten direct nodes, half on the shared service,
/// none of them measured yet.
pub fn get_all_nodes() -> (r: Vec<PackycodeNode>)
    ensures
        r@.len() == 10,
        forall|i: int| 0 <= i < 10 ==> (#[trigger] r@[i]).node_type == NodeType::Direct,
        forall|i: int| 0 <= i < 10 ==> (#[trigger] r@[i]).response_time is None,
        forall|i: int| 0 <= i < 10 ==> (#[trigger] r@[i]).available is None,
        r@[0].url@ == "https://api.packycode.com"@,
        r@[1].url@ == "https://api-hk-cn2.packycode.com"@,
        r@[2].url@ == "https://api-hk-g.packycode.com"@,
        r@[3].url@ == "https://api-cf-pro.packycode.com"@,
        r@[4].url@ == "https://api-us-cn2.packycode.com"@,
        r@[5].url@ == "https://share-api.packycode.com"@,
        r@[6].url@ == "https://share-api-hk-cn2.packycode.com"@,
        r@[7].url@ == "https://share-api-hk-g.packycode.com"@,
        r@[8].url@ == "https://share-api-cf-pro.packycode.com"@,
        r@[9].url@ == "https://share-api-us-cn2.packycode.com"@,
{
    let mut v: Vec<PackycodeNode> = Vec::new();
    v.push(
        PackycodeNode {
            name: "公交车默认节点".to_owned(),
            url: "https://api.packycode.com".to_owned(),
            node_type: NodeType::Direct,
            description: "默认公交车直连节点".to_owned(),
            response_time: None,
            available: None,
        },
    );
    v.push(
        PackycodeNode {
            name: "公交车 HK-CN2".to_owned(),
            url: "https://api-hk-cn2.packycode.com".to_owned(),
            node_type: NodeType::Direct,
            description: "香港 CN2 线路（公交车）".to_owned(),
            response_time: None,
            available: None,
        },
    );
    v.push(
        PackycodeNode {
            name: "公交车 HK-G".to_owned(),
            url: "https://api-hk-g.packycode.com".to_owned(),
            node_type: NodeType::Direct,
            description: "香港 G 线路（公交车）".to_owned(),
            response_time: None,
            available: None,
        },
    );
    v.push(
        PackycodeNode {
            name: "公交车 CF-Pro".to_owned(),
            url: "https://api-cf-pro.packycode.com".to_owned(),
            node_type: NodeType::Direct,
            description: "CloudFlare Pro 线路（公交车）".to_owned(),
            response_time: None,
            available: None,
        },
    );
    v.push(
        PackycodeNode {
            name: "公交车 US-CN2".to_owned(),
            url: "https://api-us-cn2.packycode.com".to_owned(),
            node_type: NodeType::Direct,
            description: "美国 CN2 线路（公交车）".to_owned(),
            response_time: None,
            available: None,
        },
    );
    v.push(
        PackycodeNode {
            name: "滴滴车默认节点".to_owned(),
            url: "https://share-api.packycode.com".to_owned(),
            node_type: NodeType::Direct,
            description: "默认滴滴车直连节点".to_owned(),
            response_time: None,
            available: None,
        },
    );
    v.push(
        PackycodeNode {
            name: "滴滴车 HK-CN2".to_owned(),
            url: "https://share-api-hk-cn2.packycode.com".to_owned(),
            node_type: NodeType::Direct,
            description: "香港 CN2 线路（滴滴车）".to_owned(),
            response_time: None,
            available: None,
        },
    );
    v.push(
        PackycodeNode {
            name: "滴滴车 HK-G".to_owned(),
            url: "https://share-api-hk-g.packycode.com".to_owned(),
            node_type: NodeType::Direct,
            description: "香港 G 线路（滴滴车）".to_owned(),
            response_time: None,
            available: None,
        },
    );
    v.push(
        PackycodeNode {
            name: "滴滴车 CF-Pro".to_owned(),
            url: "https://share-api-cf-pro.packycode.com".to_owned(),
            node_type: NodeType::Direct,
            description: "CloudFlare Pro 线路（滴滴车）".to_owned(),
            response_time: None,
            available: None,
        },
    );
    v.push(
        PackycodeNode {
            name: "滴滴车 US-CN2".to_owned(),
            url: "https://share-api-us-cn2.packycode.com".to_owned(),
            node_type: NodeType::Direct,
            description: "美国 CN2 线路（滴滴车）".to_owned(),
            response_time: None,
            available: None,
        },
    );
    v
}

} // verus!

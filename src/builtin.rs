//! The lookup tables that ship with the library, as text in the form their loaders read.
use vstd::prelude::*;

verus! {

/// CEF keys and the labels that resolve to them: `key,label,label,...` per line.
pub const CEF_FIELDS: &'static str = "act,deviceAction,Device Action
app,applicationProtocol,Application Protocol
cat,deviceEventCategory,Device Event Category
cnt,baseEventCount,Base Event Count
dhost,destinationHostName,Destination Host Name
dmac,destinationMacAddress,Destination MAC Address
dntdom,destinationNtDomain,Destination NT Domain
dpid,destinationProcessId,Destination Process ID
dpriv,destinationUserPrivileges,Destination User Privileges
dproc,destinationProcessName,Destination Process Name
dpt,destinationPort,Destination Port
dst,destinationAddress,Destination Address
duid,destinationUserId,Destination User ID
duser,destinationUserName,Destination User Name
dvc,deviceAddress,Device Address
dvchost,deviceHostName,Device Host Name
dvcpid,deviceProcessId,Device Process ID
end,endTime,End Time
externalId,externalId,External ID
fname,fileName,File Name
filePath,filePath,File Path
fsize,fileSize,File Size
in,bytesIn,Bytes In
msg,message,Message
out,bytesOut,Bytes Out
outcome,eventOutcome,Event Outcome
proto,transportProtocol,Transport Protocol
request,requestUrl,Request URL
rt,receiptTime,Receipt Time
shost,sourceHostName,Source Host Name
smac,sourceMacAddress,Source MAC Address
sntdom,sourceNtDomain,Source NT Domain
spid,sourceProcessId,Source Process ID
spriv,sourceUserPrivileges,Source User Privileges
sproc,sourceProcessName,Source Process Name
spt,sourcePort,Source Port
src,sourceAddress,Source Address
start,startTime,Start Time
suid,sourceUserId,Source User ID
suser,sourceUserName,Source User Name
sourceServiceName,sourceServiceName,Source Service Name
destinationServiceName,destinationServiceName,Destination Service Name
oldFileName,oldFileName,Old File Name
cs1,deviceCustomString1,Device Custom String 1
cs2,deviceCustomString2,Device Custom String 2
cs3,deviceCustomString3,Device Custom String 3
cs4,deviceCustomString4,Device Custom String 4
cs5,deviceCustomString5,Device Custom String 5
cs6,deviceCustomString6,Device Custom String 6
cn1,deviceCustomNumber1,Device Custom Number 1
cn2,deviceCustomNumber2,Device Custom Number 2
cn3,deviceCustomNumber3,Device Custom Number 3
c6a1,deviceCustomIPv6Address1,Device Custom IPv6 Address 1
c6a2,deviceCustomIPv6Address2,Device Custom IPv6 Address 2
c6a3,deviceCustomIPv6Address3,Device Custom IPv6 Address 3
c6a4,deviceCustomIPv6Address4,Device Custom IPv6 Address 4
deviceCustomDate1,deviceCustomDate1,Device Custom Date 1
deviceCustomDate2,deviceCustomDate2,Device Custom Date 2";

/// Per event ID: category, sub-category, outcome, channel, name, then the CEF fields
/// to fill, each as `label:'rule'`.
pub const EVENT_MAPPINGS: &'static str = r#"1102,System,Audit Log,Success,Security,The audit log was cleared.,Message:'The audit log was cleared',Destination User Name:'SubjectUserName',Destination NT Domain:'SubjectDomainName',Destination User ID:'SubjectUserSid'
4624,Logon/Logoff,Logon,Success,Security,An account was successfully logged on.,Message:'An account was successfully logged on',Device Action:'Account Logged On',Destination User Name:'TargetUserName',Destination NT Domain:'TargetDomainName',Destination User ID:'TargetUserSid',"Source User Name:'one_of(SubjectUserName,SubjectUserSid)'",Source Address:'IpAddress',Source Port:'IpPort',Source Process Name:'ProcessName',Device Custom String 4:'LogonType',Device Custom IPv6 Address 2:'IpAddress (IPv6 Address)',"Source Host Name:'one_of(WorkstationName,localhost)'"
4625,Logon/Logoff,Logon,Failure,Security,An account failed to log on.,Message:'An account failed to log on',Device Action:'Logon Failed',Destination User Name:'TargetUserName',Destination NT Domain:'TargetDomainName',Source Address:'IpAddress',Source Port:'IpPort',Device Custom String 4:'LogonType',Device Custom String 5:'FailureReason'
4634,Logon/Logoff,Logoff,Success,Security,An account was logged off.,Message:'all_of_data',Destination User Name:'TargetUserName',Destination NT Domain:'TargetDomainName',Device Custom String 4:'LogonType'
4688,Detailed Tracking,Process Creation,Success,Security,A new process has been created.,Message:'A new process has been created',Destination Process Name:'NewProcessName',Destination Process ID:'NewProcessId',"Source User Name:'one_of(SubjectUserName,SubjectUserSid)'",Source Process Name:'ParentProcessName',Device Custom String 1:'CommandLine'
4720,Account Management,User Account Management,Success,Security,A user account was created.,Message:'A user account was created',Device Action:'User Created',Destination User Name:'TargetUserName',Destination NT Domain:'TargetDomainName',Source User Name:'SubjectUserName',"Source NT Domain:'both(SubjectDomainName,SubjectLogonId)'"
4760,Account Management,Distribution Group Management,Success,Security,A security-disabled universal group was changed.,Message:'A security-disabled universal group was changed',Destination User Name:'TargetUserName',Destination NT Domain:'TargetDomainName',Source User Name:'SubjectUserName',Device Custom String 1:'SamAccountName'
4781,Account Management,User Account Management,Success,Security,The name of an account was changed:,Message:'The name of an account was changed',"Destination User Name:'all_of(OldTargetUserName,NewTargetUserName)'",Destination NT Domain:'TargetDomainName',Source User Name:'SubjectUserName',Device Custom String 1:'OldTargetUserName'
5156,Object Access,Filtering Platform Connection,Success,Security,The Windows Filtering Platform has permitted a connection.,Message:'The Windows Filtering Platform has permitted a connection',"Device Action:'one_of(FilterRTID,Blocked)'",Source Address:'SourceAddress',Source Port:'SourcePort',Destination Address:'DestAddress',Destination Port:'DestPort',Source Process Name:'Application',Device Custom IPv6 Address 3:'DestAddress (IPv6 Address)'
7036,System,Service Control Manager,Success,System,The service entered a new state.,"Message:'concatenate(The ,%1, service entered the ,%2, state.)'",Destination Service Name:'%1',Device Custom String 1:'%2'"#;

/// Event IDs and their names: `id,name` per line.
pub const EVENT_NAMES: &'static str = "1100,The event logging service has shut down
1102,The audit log was cleared
4608,Windows is starting up
4624,An account was successfully logged on
4625,An account failed to log on
4634,An account was logged off
4648,A logon was attempted using explicit credentials
4672,Special privileges assigned to new logon
4688,A new process has been created
4720,A user account was created
4726,A user account was deleted
4740,A user account was locked out
4760,A security-disabled universal group was changed
4781,The name of an account was changed
5156,The Windows Filtering Platform has permitted a connection
7036,The service entered a new state";

/// Security-auditing tasks: `symbol,id,name` per line.
pub const SECURITY_AUDIT_TASKS: &'static str = "SE_ADT_SYSTEM_SECURITYSTATECHANGE,12288,Security State Change
SE_ADT_SYSTEM_SECURITYSUBSYSTEMEXTENSION,12289,Security System Extension
SE_ADT_SYSTEM_INTEGRITY,12290,System Integrity
SE_ADT_SYSTEM_IPSECDRIVEREVENTS,12291,IPsec Driver
SE_ADT_SYSTEM_OTHERS,12292,Other System Events
SE_ADT_LOGON_LOGON,12544,Logon
SE_ADT_LOGON_LOGOFF,12545,Logoff
SE_ADT_LOGON_ACCOUNTLOCKOUT,12546,Account Lockout
SE_ADT_LOGON_IPSECMAINMODE,12547,IPsec Main Mode
SE_ADT_LOGON_SPECIALLOGON,12548,Special Logon
SE_ADT_LOGON_IPSECQUICKMODE,12549,IPsec Quick Mode
SE_ADT_LOGON_IPSECUSERMODE,12550,IPsec Extended Mode
SE_ADT_LOGON_OTHERS,12551,Other Logon/Logoff Events
SE_ADT_LOGON_NPS,12552,Network Policy Server
SE_ADT_LOGON_CLAIMS,12553,User / Device Claims
SE_ADT_LOGON_GROUPS,12554,Group Membership
SE_ADT_OBJECTACCESS_FILESYSTEM,12800,File System
SE_ADT_OBJECTACCESS_REGISTRY,12801,Registry
SE_ADT_OBJECTACCESS_KERNEL,12802,Kernel Object
SE_ADT_OBJECTACCESS_SAM,12803,SAM
SE_ADT_OBJECTACCESS_OTHER,12804,Other Object Access Events
SE_ADT_OBJECTACCESS_CERTIFICATIONAUTHORITY,12805,Certification Services
SE_ADT_OBJECTACCESS_APPLICATIONGENERATED,12806,Application Generated
SE_ADT_OBJECTACCESS_HANDLE,12807,Handle Manipulation
SE_ADT_OBJECTACCESS_SHARE,12808,File Share
SE_ADT_OBJECTACCESS_FIREWALLPACKETDROPS,12809,Filtering Platform Packet Drop
SE_ADT_OBJECTACCESS_FIREWALLCONNECTION,12810,Filtering Platform Connection
SE_ADT_OBJECTACCESS_DETAILEDFILESHARE,12811,Detailed File Share
SE_ADT_OBJECTACCESS_REMOVABLESTORAGE,12812,Removable Storage
SE_ADT_OBJECTACCESS_CBACSTAGING,12813,Central Access Policy Staging
SE_ADT_PRIVILEGEUSE_SENSITIVE,13056,Sensitive Privilege Use
SE_ADT_PRIVILEGEUSE_NONSENSITIVE,13057,Non Sensitive Privilege Use
SE_ADT_PRIVILEGEUSE_OTHERS,13058,Other Privilege Use Events
SE_ADT_DETAILEDTRACKING_PROCESSCREATION,13312,Process Creation
SE_ADT_DETAILEDTRACKING_PROCESSTERMINATION,13313,Process Termination
SE_ADT_DETAILEDTRACKING_DPAPIACTIVITY,13314,DPAPI Activity
SE_ADT_DETAILEDTRACKING_RPCCALL,13315,RPC Events
SE_ADT_DETAILEDTRACKING_PNPACTIVITY,13316,Plug and Play Events
SE_ADT_DETAILEDTRACKING_TOKENRIGHTADJ,13317,Token Right Adjusted Events
SE_ADT_POLICYCHANGE_AUDITPOLICY,13568,Audit Policy Change
SE_ADT_POLICYCHANGE_AUTHENTICATIONPOLICY,13569,Authentication Policy Change
SE_ADT_POLICYCHANGE_AUTHORIZATIONPOLICY,13570,Authorization Policy Change
SE_ADT_POLICYCHANGE_MPSSCVRULEPOLICY,13571,MPSSVC Rule-Level Policy Change
SE_ADT_POLICYCHANGE_WFPIPSECPOLICY,13572,Filtering Platform Policy Change
SE_ADT_POLICYCHANGE_OTHERS,13573,Other Policy Change Events
SE_ADT_ACCOUNTMANAGEMENT_USERACCOUNT,13824,User Account Management
SE_ADT_ACCOUNTMANAGEMENT_COMPUTERACCOUNT,13825,Computer Account Management
SE_ADT_ACCOUNTMANAGEMENT_SECURITYGROUP,13826,Security Group Management
SE_ADT_ACCOUNTMANAGEMENT_DISTRIBUTIONGROUP,13827,Distribution Group Management
SE_ADT_ACCOUNTMANAGEMENT_APPLICATIONGROUP,13828,Application Group Management
SE_ADT_ACCOUNTMANAGEMENT_OTHERS,13829,Other Account Management Events
SE_ADT_DSACCESS_DSACCESS,14080,Directory Service Access
SE_ADT_DSACCESS_DSCHANGES,14081,Directory Service Changes
SE_ADT_DS_REPLICATION,14082,Directory Service Replication
SE_ADT_DS_DETAILED_REPLICATION,14083,Detailed Directory Service Replication
SE_ADT_ACCOUNTLOGON_CREDENTIALVALIDATION,14336,Credential Validation
SE_ADT_ACCOUNTLOGON_KERBEROS,14337,Kerberos Service Ticket Operations
SE_ADT_ACCOUNTLOGON_OTHERS,14338,Other Account Logon Events
SE_ADT_ACCOUNTLOGON_KERBCREDENTIALVALIDATION,14339,Kerberos Authentication Service
SE_ADT_UNKNOWN_SUBCATEGORY,65280,Subcategory could not be determined";

/// Event log service tasks: `symbol,id,name` per line.
pub const EVENT_LOG_TASKS: &'static str = "el:Initialization,100,Service startup
el:EventProcessing,101,Event processing
el:Shutdown,103,Service shutdown
el:LogClear,104,Log clear
el:AutoBackup,105,Log automatic backup
el:AbnormalShutdown,108,System Abnormal Shutdown
el:UsageAudit,109,Service Usage Audit";

/// Setup tasks: `symbol,id,name` per line.
pub const SETUP_TASKS: &'static str = "tskExecuteSetupPhase,1000,Execute Setup Phase
tskSysprepSpecialize,2000,Sysprep Specialise
tskSetupInformation,3000,Setup information
tskNewOSInformation,4000,OS information";

} // verus!
